//! Sandbox configuration: sizes given as text, and the result of a run.
use vstd::prelude::*;

verus! {

/// Configuration for building a Python sandbox.
pub struct SandboxConfig {
    /// Path to the AOT-compiled Wasm component.
    pub component_path: String,
    /// Guest heap size in bytes.
    pub heap_size: u64,
    /// Guest scratch / stack size in bytes.
    pub stack_size: u64,
    /// Optional wall-clock timeout (seconds) for guest execution.
    pub timeout_secs: Option<u64>,
}

/// The result of executing code inside the sandbox.
pub struct ExecutionResult {
    pub stdout: String,
    pub stderr: String,
    pub exit_code: i32,
}

impl ExecutionResult {
    /// The run succeeded: it exited with code 0.
    pub fn success(&self) -> (b: bool)
        ensures
            b == (self.exit_code == 0),
    {
        self.exit_code == 0
    }
}

/// Why a size text is refused; the kinds of `u64` parsing errors.
#[derive(PartialEq, Eq, Structural, Debug, Clone, Copy)]
pub enum SizeError {
    /// The number is empty.
    Empty,
    /// A character is not a decimal digit.
    InvalidDigit,
    /// The number does not fit in `u64`.
    PosOverflow,
}

/// A character with the Unicode `White_Space` property.
pub open spec fn is_white_space(c: char) -> bool {
    ('\u{9}' <= c <= '\u{d}') || c == ' ' || c == '\u{85}' || c == '\u{a0}' || c == '\u{1680}' || (
    '\u{2000}' <= c <= '\u{200a}') || c == '\u{2028}' || c == '\u{2029}' || c == '\u{202f}' || c
        == '\u{205f}' || c == '\u{3000}'
}

/// The text without its leading white space.
pub open spec fn trim_start(s: Seq<char>) -> Seq<char>
    decreases s.len(),
{
    if s.len() > 0 && is_white_space(s[0]) {
        trim_start(s.drop_first())
    } else {
        s
    }
}

/// The text without its trailing white space.
pub open spec fn trim_end(s: Seq<char>) -> Seq<char>
    decreases s.len(),
{
    if s.len() > 0 && is_white_space(s.last()) {
        trim_end(s.drop_last())
    } else {
        s
    }
}

/// The text without leading and trailing white space.
pub open spec fn trim(s: Seq<char>) -> Seq<char> {
    trim_end(trim_start(s))
}

pub open spec fn is_digit(c: char) -> bool {
    '0' <= c <= '9'
}

pub open spec fn digit_value(c: char) -> int {
    c as int - '0' as int
}

/// Decimal digits read left to right onto `acc`: the first non-digit is
/// an invalid digit, and a value past `u64::MAX` an overflow.
pub open spec fn scan_digits(d: Seq<char>, acc: int) -> Result<u64, SizeError>
    decreases d.len(),
{
    if d.len() == 0 {
        Ok(acc as u64)
    } else if !is_digit(d[0]) {
        Err(SizeError::InvalidDigit)
    } else if acc * 10 + digit_value(d[0]) > u64::MAX {
        Err(SizeError::PosOverflow)
    } else {
        scan_digits(d.drop_first(), acc * 10 + digit_value(d[0]))
    }
}

/// What parsing the text as a `u64` gives: an optional leading `+`, then
/// decimal digits.
pub open spec fn parse_u64(s: Seq<char>) -> Result<u64, SizeError> {
    if s.len() == 0 {
        Err(SizeError::Empty)
    } else if s.len() == 1 && (s[0] == '+' || s[0] == '-') {
        Err(SizeError::InvalidDigit)
    } else if s[0] == '+' {
        scan_digits(s.drop_first(), 0)
    } else {
        scan_digits(s, 0)
    }
}

/// The text ends with the two characters `a` then `b`.
pub open spec fn ends_with2(s: Seq<char>, a: char, b: char) -> bool {
    s.len() >= 2 && s[s.len() - 2] == a && s[s.len() - 1] == b
}

/// The number part of a trimmed size text and the factor of its unit.
pub open spec fn unit_split(t: Seq<char>) -> (Seq<char>, int) {
    if ends_with2(t, 'G', 'i') {
        (t.drop_last().drop_last(), 1024int * 1024 * 1024)
    } else if ends_with2(t, 'M', 'i') {
        (t.drop_last().drop_last(), 1024int * 1024)
    } else if ends_with2(t, 'K', 'i') {
        (t.drop_last().drop_last(), 1024int)
    } else {
        (t, 1int)
    }
}

/// The size a text stands for: a number of bytes, or of KiB, MiB or GiB
/// when it ends in `Ki`, `Mi` or `Gi`; white space around it is ignored.
pub open spec fn size_of_text(s: Seq<char>) -> Result<int, SizeError> {
    let (digits, factor) = unit_split(trim(s));
    match parse_u64(digits) {
        Ok(n) => Ok(n * factor),
        Err(e) => Err(e),
    }
}

fn chars_of(s: &str) -> (v: Vec<char>)
    ensures
        v@ == s@,
{
    let n = s.unicode_len();
    let mut v: Vec<char> = Vec::new();
    let mut i: usize = 0;
    while i < n
        invariant
            n == s@.len(),
            0 <= i <= n,
            v@ == s@.take(i as int),
        decreases n - i,
    {
        v.push(s.get_char(i));
        i = i + 1;
        assert(v@ =~= s@.take(i as int));
    }
    assert(s@.take(n as int) =~= s@);
    v
}

fn white_space(c: char) -> (b: bool)
    ensures
        b == is_white_space(c),
{
    ('\u{9}' <= c && c <= '\u{d}') || c == ' ' || c == '\u{85}' || c == '\u{a0}' || c == '\u{1680}'
        || ('\u{2000}' <= c && c <= '\u{200a}') || c == '\u{2028}' || c == '\u{2029}' || c
        == '\u{202f}' || c == '\u{205f}' || c == '\u{3000}'
}

proof fn lemma_trim_start(s: Seq<char>, k: int)
    requires
        0 <= k <= s.len(),
        forall|j: int| 0 <= j < k ==> is_white_space(s[j]),
        k == s.len() || !is_white_space(s[k]),
    ensures
        trim_start(s) == s.subrange(k, s.len() as int),
    decreases s.len(),
{
    if k > 0 {
        lemma_trim_start(s.drop_first(), k - 1);
        assert(s.drop_first().subrange(k - 1, s.len() - 1) =~= s.subrange(k, s.len() as int));
    } else {
        assert(s.subrange(0, s.len() as int) =~= s);
    }
}

proof fn lemma_trim_end(s: Seq<char>, k: int)
    requires
        0 <= k <= s.len(),
        forall|j: int| k <= j < s.len() ==> is_white_space(s[j]),
        k == 0 || !is_white_space(s[k - 1]),
    ensures
        trim_end(s) == s.subrange(0, k),
    decreases s.len(),
{
    if k < s.len() {
        lemma_trim_end(s.drop_last(), k);
        assert(s.drop_last().subrange(0, k) =~= s.subrange(0, k));
    } else {
        assert(s.subrange(0, k) =~= s);
    }
}

proof fn lemma_scan_step(d: Seq<char>, acc: int, i: int)
    requires
        0 <= i < d.len(),
    ensures
        scan_digits(d.skip(i), acc) == (if !is_digit(d[i]) {
            Err(SizeError::InvalidDigit)
        } else if acc * 10 + digit_value(d[i]) > u64::MAX {
            Err(SizeError::PosOverflow)
        } else {
            scan_digits(d.skip(i + 1), acc * 10 + digit_value(d[i]))
        }),
{
    assert(d.skip(i).drop_first() =~= d.skip(i + 1));
}

/// Read decimal digits from `v[start..end]`.
fn scan(v: &Vec<char>, start: usize, end: usize) -> (r: Result<u64, SizeError>)
    requires
        start <= end <= v@.len(),
    ensures
        r == scan_digits(v@.subrange(start as int, end as int), 0),
{
    let ghost d = v@.subrange(start as int, end as int);
    let mut acc: u64 = 0;
    let mut i: usize = start;
    assert(d.skip(0) =~= d);
    while i < end
        invariant
            start <= i <= end <= v@.len(),
            d == v@.subrange(start as int, end as int),
            scan_digits(d, 0) == scan_digits(d.skip(i - start), acc as int),
        decreases end - i,
    {
        let c = v[i];
        proof {
            lemma_scan_step(d, acc as int, i - start);
        }
        if !('0' <= c && c <= '9') {
            return Err(SizeError::InvalidDigit);
        }
        let dv = (c as u32 - '0' as u32) as u64;
        assert(dv == digit_value(c));
        if acc > (u64::MAX - dv) / 10 {
            assert(acc * 10 + dv > u64::MAX) by (nonlinear_arith)
                requires
                    acc > (u64::MAX - dv) / 10,
                    dv <= 9,
            ;
            return Err(SizeError::PosOverflow);
        }
        assert(acc * 10 + dv <= u64::MAX) by (nonlinear_arith)
            requires
                acc <= (u64::MAX - dv) / 10,
                dv <= 9,
        ;
        acc = acc * 10 + dv;
        i = i + 1;
    }
    assert(d.skip(end - start) =~= Seq::<char>::empty());
    Ok(acc)
}

/// The bounds of `v` without its leading and trailing white space.
fn trim_bounds(v: &Vec<char>) -> (r: (usize, usize))
    ensures
        r.0 <= r.1 <= v@.len(),
        v@.subrange(r.0 as int, r.1 as int) == trim(v@),
{
    let n = v.len();
    let mut a: usize = 0;
    while a < n
        invariant
            n == v@.len(),
            0 <= a <= n,
            forall|j: int| 0 <= j < a ==> is_white_space(v@[j]),
        ensures
            0 <= a <= n,
            forall|j: int| 0 <= j < a ==> is_white_space(v@[j]),
            a == n || !is_white_space(v@[a as int]),
        decreases n - a,
    {
        if !white_space(v[a]) {
            break;
        }
        a = a + 1;
    }
    let mut b: usize = n;
    while b > a
        invariant
            n == v@.len(),
            a <= b <= n,
            forall|j: int| b <= j < n ==> is_white_space(v@[j]),
        ensures
            a <= b <= n,
            forall|j: int| b <= j < n ==> is_white_space(v@[j]),
            b == a || !is_white_space(v@[b - 1]),
        decreases b - a,
    {
        if !white_space(v[b - 1]) {
            break;
        }
        b = b - 1;
    }
    proof {
        lemma_trim_start(v@, a as int);
        let rest = v@.subrange(a as int, n as int);
        assert forall|j: int| b - a <= j < rest.len() implies is_white_space(rest[j]) by {
            assert(rest[j] == v@[j + a]);
        }
        if b > a {
            assert(rest[b - a - 1] == v@[b - 1]);
        }
        lemma_trim_end(rest, b - a);
        assert(rest.subrange(0, b - a) =~= v@.subrange(a as int, b as int));
    }
    (a, b)
}

/// Parse `v[a..end]` as a `u64`.
fn parse_digits(v: &Vec<char>, a: usize, end: usize) -> (r: Result<u64, SizeError>)
    requires
        a <= end <= v@.len(),
    ensures
        r == parse_u64(v@.subrange(a as int, end as int)),
{
    let ghost digits = v@.subrange(a as int, end as int);
    if end == a {
        Err(SizeError::Empty)
    } else if end - a == 1 && (v[a] == '+' || v[a] == '-') {
        Err(SizeError::InvalidDigit)
    } else if v[a] == '+' {
        proof {
            assert(digits.drop_first() =~= v@.subrange(a + 1, end as int));
        }
        scan(v, a + 1, end)
    } else {
        scan(v, a, end)
    }
}

/// The parsed number of a size text, and the factor of its unit.
fn size_parts(s: &str) -> (r: (Result<u64, SizeError>, u64))
    ensures
        r.0 == parse_u64(unit_split(trim(s@)).0),
        r.1 == unit_split(trim(s@)).1,
        r.1 > 0,
{
    let v = chars_of(s);
    let (a, b) = trim_bounds(&v);
    let ghost t = v@.subrange(a as int, b as int);
    let mut end = b;
    let mut factor: u64 = 1;
    if b - a >= 2 && v[b - 1] == 'i' {
        let unit = v[b - 2];
        if unit == 'G' {
            end = b - 2;
            factor = 1024 * 1024 * 1024;
        } else if unit == 'M' {
            end = b - 2;
            factor = 1024 * 1024;
        } else if unit == 'K' {
            end = b - 2;
            factor = 1024;
        }
    }
    proof {
        if end == b - 2 {
            assert(t.drop_last().drop_last() =~= v@.subrange(a as int, end as int));
        }
        if b - a >= 2 {
            assert(t[t.len() - 1] == v@[b - 1]);
            assert(t[t.len() - 2] == v@[b - 2]);
        }
    }
    (parse_digits(&v, a, end), factor)
}

/// Whether parsing the size text stays within `u64`: it is refused, or
/// the size it stands for fits.
pub fn size_in_range(s: &str) -> (b: bool)
    ensures
        b == (size_of_text(s@) matches Ok(v) ==> v <= u64::MAX),
{
    let (parsed, factor) = size_parts(s);
    match parsed {
        Ok(n) => {
            let fits = n <= u64::MAX / factor;
            assert(fits == (n * factor <= u64::MAX)) by (nonlinear_arith)
                requires
                    factor > 0,
                    fits == (n <= u64::MAX / factor),
            ;
            fits
        },
        Err(_) => true,
    }
}

/// Parse a memory size text like `"512Mi"` or `"8Mi"` to bytes.
pub fn parse_size(s: &str) -> (r: Result<u64, SizeError>)
    requires
        size_of_text(s@) matches Ok(v) ==> v <= u64::MAX,
    ensures
        match size_of_text(s@) {
            Ok(v) => r == Ok::<u64, SizeError>(v as u64),
            Err(e) => r == Err::<u64, SizeError>(e),
        },
{
    let (parsed, factor) = size_parts(s);
    match parsed {
        Ok(n) => {
            assert(n * factor <= u64::MAX);
            Ok(n * factor)
        },
        Err(e) => Err(e),
    }
}

} // verus!
