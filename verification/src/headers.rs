//! HTTP header fields held in `reqwest`'s `HeaderMap`: a multimap from
//! lower-case names to the values given for them, in order.
use crate::http_store::{values_named, FieldList, FieldsView, fields_view, is_token_char};
use reqwest::header::{HeaderMap, HeaderName, HeaderValue};
use std::str::FromStr;
use vstd::prelude::*;

verus! {

/// `reqwest::header::HeaderMap` (the `http` crate's), opaque to proofs:
/// what it holds is told by [`header_map_entries`].
#[verifier::external_type_specification]
#[verifier::external_body]
#[verifier::reject_recursive_types(T)]
pub struct ExHeaderMap<T>(HeaderMap<T>);

/// `reqwest::header::HeaderValue`, opaque to proofs; it appears only as
/// the value type of a `HeaderMap`.
#[verifier::external_type_specification]
#[verifier::external_body]
pub struct ExHeaderValue(HeaderValue);

/// Header values by name.
pub type FieldMap = Map<Seq<char>, Seq<Seq<u8>>>;

/// What a header map holds: for each (lower-case) name that has values,
/// those values in the order they were added.
pub uninterp spec fn header_map_entries(m: HeaderMap) -> FieldMap;

/// The largest number of names a map may hold before one more addition:
/// below it `HeaderMap` never outgrows its capacity, whatever its hashing
/// state.
pub const NAME_LIMIT: usize = 6553;

/// The ASCII lower-case of a character.
pub open spec fn lower_char(c: char) -> char {
    if 'A' <= c <= 'Z' {
        ((c as u32) + 32) as char
    } else {
        c
    }
}

/// The header name that a text stands for: its lower-case, when the text
/// is 1 to 65535 token characters long; otherwise none.
pub open spec fn header_name_text(s: Seq<char>) -> Option<Seq<char>> {
    if 1 <= s.len() <= 65535 && forall|i: int| 0 <= i < s.len() ==> is_token_char(#[trigger] s[i]) {
        Some(s.map_values(|c: char| lower_char(c)))
    } else {
        None
    }
}

/// The text is a header name already in lower case.
pub open spec fn is_canonical_name(s: Seq<char>) -> bool {
    header_name_text(s) == Some(s)
}

/// A byte that a header value may hold: visible ASCII, obs-text, space or
/// horizontal tab.
pub open spec fn is_value_byte(b: u8) -> bool {
    (b >= 32 && b != 127) || b == 9
}

/// The bytes make a valid header value.
pub open spec fn is_header_value(v: Seq<u8>) -> bool {
    forall|i: int| 0 <= i < v.len() ==> is_value_byte(#[trigger] v[i])
}

/// Every value of the list is a valid header value.
pub open spec fn all_header_values(vs: Seq<Seq<u8>>) -> bool {
    forall|i: int| 0 <= i < vs.len() ==> is_header_value(#[trigger] vs[i])
}

/// The values held for `name`, none when it is absent.
pub open spec fn values_for(e: FieldMap, name: Seq<char>) -> Seq<Seq<u8>> {
    if e.dom().contains(name) {
        e[name]
    } else {
        Seq::empty()
    }
}

/// The entries after `value` is added under `name`, after those it has.
pub open spec fn add_value(
    e: FieldMap,
    name: Seq<char>,
    value: Seq<u8>,
) -> FieldMap {
    e.insert(name, values_for(e, name).push(value))
}

/// The map has room for one more addition.
pub open spec fn has_room(e: FieldMap) -> bool {
    e.dom().finite() && e.dom().len() <= NAME_LIMIT
}

/// `HeaderMap::new` makes an empty map.
#[verifier::external_body]
fn map_new() -> (m: HeaderMap)
    ensures
        header_map_entries(m) == FieldMap::empty(),
{
    HeaderMap::new()
}

/// `HeaderName::from_str` accepts a text of 1 to 65535 bytes that are all
/// token characters, and the name it makes reads (`as_str`) as the text in
/// lower case; any other text is refused.
#[verifier::external_body]
fn parse_header_name(s: &str) -> (r: Option<String>)
    ensures
        match header_name_text(s@) {
            Some(t) => r matches Some(n) && n@ == t,
            None => r is None,
        },
{
    match HeaderName::from_str(s) {
        Ok(n) => Some(n.as_str().to_string()),
        Err(_) => None,
    }
}

/// `HeaderValue::from_bytes` accepts exactly the byte strings whose bytes
/// are all visible ASCII, obs-text (128 and up), space or tab.
#[verifier::external_body]
fn header_value_ok(v: &[u8]) -> (b: bool)
    ensures
        b == is_header_value(v@),
{
    HeaderValue::from_bytes(v).is_ok()
}

/// `HeaderMap::append` adds the value after those the name has, or makes
/// the name with this one value. Name and value are handed over as
/// `HeaderName` and `HeaderValue`, which keep the text and bytes as they
/// are, since the name is already canonical and the value valid.
#[verifier::external_body]
fn map_append(m: &mut HeaderMap, name: &str, value: &[u8])
    requires
        is_canonical_name(name@),
        is_header_value(value@),
        has_room(header_map_entries(*old(m))),
    ensures
        header_map_entries(*final(m)) == add_value(header_map_entries(*old(m)), name@, value@),
{
    let name = HeaderName::from_str(name).expect("canonical header name");
    let value = HeaderValue::from_bytes(value).expect("valid header value");
    m.append(name, value);
}

/// `HeaderMap::remove` drops the name with all its values.
#[verifier::external_body]
fn map_remove(m: &mut HeaderMap, name: &str)
    requires
        is_canonical_name(name@),
    ensures
        header_map_entries(*final(m)) == header_map_entries(*old(m)).remove(name@),
{
    let name = HeaderName::from_str(name).expect("canonical header name");
    m.remove(name);
}

/// `HeaderMap::get_all` yields the values of the name in the order they
/// were added, each handed out as its bytes.
#[verifier::external_body]
fn map_get_all(m: &HeaderMap, name: &str) -> (r: Vec<Vec<u8>>)
    requires
        is_canonical_name(name@),
    ensures
        r@.map_values(|v: Vec<u8>| v@) == values_for(header_map_entries(*m), name@),
{
    let name = HeaderName::from_str(name).expect("canonical header name");
    m.get_all(name).iter().map(|v| v.as_bytes().to_vec()).collect()
}

/// `HeaderMap::contains_key` tells whether the name has values.
#[verifier::external_body]
fn map_contains(m: &HeaderMap, name: &str) -> (b: bool)
    requires
        is_canonical_name(name@),
    ensures
        b == header_map_entries(*m).dom().contains(name@),
{
    let name = HeaderName::from_str(name).expect("canonical header name");
    m.contains_key(name)
}

/// `HeaderMap::iter` yields each name once per value, the values of a
/// name in the order they were added; the order between names is the
/// map's own and left open here.
#[verifier::external_body]
fn map_entries(m: &HeaderMap) -> (r: FieldList)
    ensures
        forall|name: Seq<char>|
            #[trigger] values_named(fields_view(r), name) == values_for(header_map_entries(*m), name),
{
    m.iter().map(|(k, v)| (k.as_str().to_string(), v.as_bytes().to_vec())).collect()
}

/// `HeaderMap::is_empty` tells whether the map holds no name.
#[verifier::external_body]
fn map_is_empty(m: &HeaderMap) -> (b: bool)
    ensures
        b == (header_map_entries(*m) == FieldMap::empty()),
{
    m.is_empty()
}

/// `HeaderMap::clone` copies the map with all it holds.
#[verifier::external_body]
fn map_clone(m: &HeaderMap) -> (r: HeaderMap)
    ensures
        header_map_entries(r) == header_map_entries(*m),
{
    m.clone()
}

/// Why a change to the header fields is refused.
#[derive(PartialEq, Eq, Structural, Debug, Clone, Copy)]
pub enum HeaderError {
    /// The fields may not be changed.
    Immutable,
    /// A name or a value is not valid.
    InvalidHeader,
}

/// The header errors of the WASI HTTP interface.
#[derive(PartialEq, Eq, Structural, Debug, Clone, Copy)]
pub enum WasiHeaderError {
    InvalidSyntax,
    Forbidden,
    Immutable,
}

impl From<HeaderError> for WasiHeaderError {
    /// Immutable fields stay immutable; an invalid name or value is
    /// invalid syntax.
    fn from(err: HeaderError) -> (r: Self)
        ensures
            r == (match err {
                HeaderError::Immutable => WasiHeaderError::Immutable,
                HeaderError::InvalidHeader => WasiHeaderError::InvalidSyntax,
            }),
    {
        match err {
            HeaderError::Immutable => WasiHeaderError::Immutable,
            HeaderError::InvalidHeader => WasiHeaderError::InvalidSyntax,
        }
    }
}

impl vstd::std_specs::convert::FromSpecImpl<HeaderError> for WasiHeaderError {
    open spec fn obeys_from_spec() -> bool {
        true
    }

    open spec fn from_spec(err: HeaderError) -> Self {
        match err {
            HeaderError::Immutable => WasiHeaderError::Immutable,
            HeaderError::InvalidHeader => WasiHeaderError::InvalidSyntax,
        }
    }
}

/// Header fields, and whether they may be changed.
pub struct Headers {
    inner: HeaderMap,
    pub immutable: bool,
}

/// The mathematical value of [`Headers`].
pub struct HeadersView {
    pub entries: FieldMap,
    pub immutable: bool,
}

impl View for Headers {
    type V = HeadersView;

    closed spec fn view(&self) -> HeadersView {
        HeadersView { entries: header_map_entries(self.inner), immutable: self.immutable }
    }
}

/// The entries after adding a list of fields one by one, when every name
/// and value is valid; none at the first that is not.
pub open spec fn add_fields(e: FieldMap, f: FieldsView) -> Option<
    FieldMap,
>
    decreases f.len(),
{
    if f.len() == 0 {
        Some(e)
    } else {
        match add_fields(e, f.drop_last()) {
            None => None,
            Some(e2) => match header_name_text(f.last().0) {
                None => None,
                Some(n) => if is_header_value(f.last().1) {
                    Some(add_value(e2, n, f.last().1))
                } else {
                    None
                },
            },
        }
    }
}

/// The distinct header names a list of fields carries, each taken as the
/// name it stands for; invalid names count for none.
pub open spec fn canonical_names(f: FieldsView) -> Set<Seq<char>>
    decreases f.len(),
{
    if f.len() == 0 {
        Set::empty()
    } else {
        match header_name_text(f.last().0) {
            Some(n) => canonical_names(f.drop_last()).insert(n),
            None => canonical_names(f.drop_last()),
        }
    }
}

/// The entries after the values of `name` are replaced by `values`.
pub open spec fn set_values(
    e: FieldMap,
    name: Seq<char>,
    values: Seq<Seq<u8>>,
) -> FieldMap {
    if values.len() == 0 {
        e.remove(name)
    } else {
        e.insert(name, values)
    }
}

pub open spec fn bytes_of(v: Vec<Vec<u8>>) -> Seq<Seq<u8>> {
    v@.map_values(|b: Vec<u8>| b@)
}

impl Default for Headers {
    fn default() -> (h: Self)
        ensures
            h@.entries == FieldMap::empty(),
            !h@.immutable,
    {
        Headers { inner: map_new(), immutable: false }
    }
}

impl From<HeaderMap> for Headers {
    /// Changeable fields holding what `inner` holds.
    fn from(inner: HeaderMap) -> (h: Self)
        ensures
            h@.entries == header_map_entries(inner),
            !h@.immutable,
    {
        Headers { inner, immutable: false }
    }
}

impl vstd::std_specs::convert::FromSpecImpl<HeaderMap> for Headers {
    open spec fn obeys_from_spec() -> bool {
        true
    }

    closed spec fn from_spec(inner: HeaderMap) -> Self {
        Headers { inner, immutable: false }
    }
}

impl Headers {
    /// Fields from a list of names and values, added in order; refused
    /// at the first invalid name or value.
    pub fn from_list(entries: FieldList) -> (r: Result<Self, HeaderError>)
        requires
            canonical_names(fields_view(entries)).len() <= NAME_LIMIT,
        ensures
            match add_fields(FieldMap::empty(), fields_view(entries)) {
                Some(e) => r matches Ok(h) && h@.entries == e && !h@.immutable,
                None => r == Err::<Self, HeaderError>(HeaderError::InvalidHeader),
            },
    {
        let mut headers = map_new();
        let ghost f = fields_view(entries);
        proof {
            lemma_canonical_names_finite(f);
            assert(f.take(0) =~= Seq::<(Seq<char>, Seq<u8>)>::empty());
            assert(header_map_entries(headers).dom() =~= canonical_names(f.take(0)));
        }
        let mut i: usize = 0;
        while i < entries.len()
            invariant
                i <= entries.len(),
                f == fields_view(entries),
                canonical_names(f).finite(),
                canonical_names(f).len() <= NAME_LIMIT,
                add_fields(FieldMap::empty(), f.take(i as int)) == Some(header_map_entries(headers)),
                header_map_entries(headers).dom() == canonical_names(f.take(i as int)),
            decreases entries.len() - i,
        {
            let (k, v) = &entries[i];
            assert(f.take(i + 1).drop_last() =~= f.take(i as int));
            assert(f.take(i + 1).last() == (k@, v@));
            let name = match parse_header_name(k.as_str()) {
                Some(n) => n,
                None => {
                    proof {
                        assert(add_fields(FieldMap::empty(), f.take(i + 1)) is None);
                        lemma_add_fields_stays_none(FieldMap::empty(), f, i + 1);
                    }
                    return Err(HeaderError::InvalidHeader);
                },
            };
            if !header_value_ok(v.as_slice()) {
                proof {
                    assert(add_fields(FieldMap::empty(), f.take(i + 1)) is None);
                    lemma_add_fields_stays_none(FieldMap::empty(), f, i + 1);
                }
                return Err(HeaderError::InvalidHeader);
            }
            proof {
                lemma_canonical(k@);
                lemma_canonical_names_prefix(f, i as int);
                lemma_canonical_names_finite(f.take(i as int));
                vstd::set_lib::lemma_len_subset(canonical_names(f.take(i as int)), canonical_names(f));
            }
            map_append(&mut headers, name.as_str(), v.as_slice());
            assert(add_fields(FieldMap::empty(), f.take(i + 1)) == Some(header_map_entries(headers)));
            assert(header_map_entries(headers).dom() =~= canonical_names(f.take(i + 1)));
            i = i + 1;
        }
        assert(f.take(entries.len() as int) =~= f);
        Ok(Headers { inner: headers, immutable: false })
    }

    /// The values of a name, in order; refused when the name is invalid.
    pub fn get(&self, name: &str) -> (r: Result<Vec<Vec<u8>>, HeaderError>)
        ensures
            match header_name_text(name@) {
                Some(n) => r matches Ok(v) && bytes_of(v) == values_for(self@.entries, n),
                None => r == Err::<Vec<Vec<u8>>, HeaderError>(HeaderError::InvalidHeader),
            },
    {
        match parse_header_name(name) {
            Some(n) => {
                proof { lemma_canonical(name@); }
                Ok(map_get_all(&self.inner, n.as_str()))
            },
            None => Err(HeaderError::InvalidHeader),
        }
    }

    /// Whether a valid name has values.
    pub fn has(&self, name: &str) -> (b: bool)
        ensures
            b == (header_name_text(name@) matches Some(n) && self@.entries.dom().contains(n)),
    {
        match parse_header_name(name) {
            Some(n) => {
                proof { lemma_canonical(name@); }
                map_contains(&self.inner, n.as_str())
            },
            None => false,
        }
    }

    /// Replace the values of a name.
    pub fn set(&mut self, name: &str, values: Vec<Vec<u8>>) -> (r: Result<(), HeaderError>)
        requires
            old(self)@.entries.dom().finite(),
            old(self)@.entries.dom().len() < NAME_LIMIT,
        ensures
            old(self)@.immutable ==> r == Err::<(), HeaderError>(HeaderError::Immutable) && final(self)@ == old(self)@,
            !old(self)@.immutable && (header_name_text(name@) is None || !all_header_values(bytes_of(values)))
                ==> r == Err::<(), HeaderError>(HeaderError::InvalidHeader) && final(self)@ == old(self)@,
            header_name_text(name@) matches Some(n) ==> (!old(self)@.immutable && all_header_values(
                bytes_of(values),
            ) ==> r is Ok && final(self)@ == (HeadersView {
                entries: set_values(old(self)@.entries, n, bytes_of(values)),
                immutable: false,
            })),
    {
        if self.immutable {
            return Err(HeaderError::Immutable);
        }
        let n = match parse_header_name(name) {
            Some(n) => n,
            None => return Err(HeaderError::InvalidHeader),
        };
        proof { lemma_canonical(name@); }
        let mut j: usize = 0;
        while j < values.len()
            invariant
                j <= values.len(),
                self@ == old(self)@,
                !old(self)@.immutable,
                forall|k: int| 0 <= k < j ==> is_header_value(#[trigger] bytes_of(values)[k]),
            decreases values.len() - j,
        {
            if !header_value_ok(values[j].as_slice()) {
                assert(!is_header_value(bytes_of(values)[j as int]));
                return Err(HeaderError::InvalidHeader);
            }
            j = j + 1;
        }
        let ghost e0 = self@.entries;
        map_remove(&mut self.inner, n.as_str());
        let mut i: usize = 0;
        while i < values.len()
            invariant
                is_canonical_name(n@),
                i <= values.len(),
                e0.dom().finite(),
                e0.dom().len() < NAME_LIMIT,
                header_map_entries(self.inner) == (if i == 0 {
                    e0.remove(n@)
                } else {
                    e0.insert(n@, bytes_of(values).take(i as int))
                }),
                all_header_values(bytes_of(values)),
                !self.immutable,
            decreases values.len() - i,
        {
            let ghost prev = header_map_entries(self.inner);
            proof {
                if i == 0 {
                    assert(prev.dom() =~= e0.dom().remove(n@));
                    assert(values_for(prev, n@) =~= bytes_of(values).take(0));
                } else {
                    assert(prev.dom() =~= e0.dom().insert(n@));
                }
                assert(is_header_value(bytes_of(values)[i as int]));
            }
            map_append(&mut self.inner, n.as_str(), values[i].as_slice());
            proof {
                assert(bytes_of(values).take(i + 1) =~= bytes_of(values).take(i as int).push(
                    values[i as int]@,
                ));
                assert(header_map_entries(self.inner) =~= e0.insert(
                    n@,
                    bytes_of(values).take(i + 1),
                ));
            }
            i = i + 1;
        }
        proof {
            if values.len() > 0 {
                assert(bytes_of(values).take(values.len() as int) =~= bytes_of(values));
            }
        }
        Ok(())
    }

    /// Drop a name with its values.
    pub fn delete(&mut self, name: &str) -> (r: Result<(), HeaderError>)
        ensures
            old(self)@.immutable ==> r == Err::<(), HeaderError>(HeaderError::Immutable) && final(self)@ == old(self)@,
            !old(self)@.immutable && header_name_text(name@) is None
                ==> r == Err::<(), HeaderError>(HeaderError::InvalidHeader) && final(self)@ == old(self)@,
            header_name_text(name@) matches Some(n) ==> (!old(self)@.immutable ==> r is Ok
                && final(self)@ == (HeadersView { entries: old(self)@.entries.remove(n), immutable: false })),
    {
        if self.immutable {
            return Err(HeaderError::Immutable);
        }
        let n = match parse_header_name(name) {
            Some(n) => n,
            None => return Err(HeaderError::InvalidHeader),
        };
        proof { lemma_canonical(name@); }
        map_remove(&mut self.inner, n.as_str());
        Ok(())
    }

    /// Add a value after those a name has.
    pub fn append(&mut self, name: &str, value: &[u8]) -> (r: Result<(), HeaderError>)
        requires
            has_room(old(self)@.entries),
        ensures
            old(self)@.immutable ==> r == Err::<(), HeaderError>(HeaderError::Immutable) && final(self)@ == old(self)@,
            !old(self)@.immutable && (header_name_text(name@) is None || !is_header_value(value@))
                ==> r == Err::<(), HeaderError>(HeaderError::InvalidHeader) && final(self)@ == old(self)@,
            header_name_text(name@) matches Some(n) ==> (!old(self)@.immutable && is_header_value(value@)
                ==> r is Ok && final(self)@ == (HeadersView {
                entries: add_value(old(self)@.entries, n, value@),
                immutable: false,
            })),
    {
        if self.immutable {
            return Err(HeaderError::Immutable);
        }
        let n = match parse_header_name(name) {
            Some(n) => n,
            None => return Err(HeaderError::InvalidHeader),
        };
        if !header_value_ok(value) {
            return Err(HeaderError::InvalidHeader);
        }
        proof { lemma_canonical(name@); }
        map_append(&mut self.inner, n.as_str(), value);
        Ok(())
    }

    /// Every name with each of its values; the values of a name keep their
    /// order.
    pub fn entries(&self) -> (r: FieldList)
        ensures
            forall|name: Seq<char>|
                #[trigger] values_named(fields_view(r), name) == values_for(self@.entries, name),
    {
        map_entries(&self.inner)
    }

    /// Whether no name has values.
    pub fn is_empty(&self) -> (b: bool)
        ensures
            b == (self@.entries == FieldMap::empty()),
    {
        map_is_empty(&self.inner)
    }

    /// Forbid any further change.
    pub fn make_immutable(&mut self)
        ensures
            final(self)@ == (HeadersView { immutable: true, ..old(self)@ }),
    {
        self.immutable = true;
    }

    /// A copy of the fields, with the same changeability.
    pub fn duplicate(&self) -> (r: Self)
        ensures
            r@ == self@,
    {
        Headers { inner: map_clone(&self.inner), immutable: self.immutable }
    }
}

/// A header name, once made canonical, stays what it is.
pub proof fn lemma_canonical(s: Seq<char>)
    requires
        header_name_text(s) is Some,
    ensures
        is_canonical_name(header_name_text(s)->0),
{
    let t = header_name_text(s)->0;
    assert forall|i: int| 0 <= i < t.len() implies is_token_char(#[trigger] t[i]) by {
        assert(is_token_char(s[i]));
    }
    assert(t.map_values(|c: char| lower_char(c)) =~= t);
}

/// After the values of a name are set, reading it gives those values, and
/// every other name keeps its own.
pub proof fn lemma_header_get_after_set(e: FieldMap, name: Seq<char>, values: Seq<Seq<u8>>, other: Seq<char>)
    requires
        other != name,
    ensures
        values_for(set_values(e, name, values), name) == values,
        values_for(set_values(e, name, values), other) == values_for(e, other),
{
}

/// After a value is appended to a name, reading it gives the old values
/// followed by the new one, and every other name keeps its own.
pub proof fn lemma_header_get_after_append(e: FieldMap, name: Seq<char>, value: Seq<u8>, other: Seq<char>)
    requires
        other != name,
    ensures
        values_for(add_value(e, name, value), name) == values_for(e, name).push(value),
        values_for(add_value(e, name, value), other) == values_for(e, other),
{
}

/// After a name is deleted it has no values, and every other name keeps
/// its own.
pub proof fn lemma_header_delete(e: FieldMap, name: Seq<char>, other: Seq<char>)
    requires
        other != name,
    ensures
        !e.remove(name).dom().contains(name),
        values_for(e.remove(name), name) == Seq::<Seq<u8>>::empty(),
        values_for(e.remove(name), other) == values_for(e, other),
{
}

/// Names do not depend on case: a name and its upper- or lower-case
/// spellings stand for one header.
pub proof fn lemma_header_name_case(s: Seq<char>, t: Seq<char>)
    requires
        s.len() == t.len(),
        forall|i: int| 0 <= i < s.len() ==> lower_char(#[trigger] s[i]) == lower_char(t[i]),
    ensures
        header_name_text(s) == header_name_text(t),
{
    assert forall|i: int| 0 <= i < s.len() implies is_token_char(#[trigger] s[i]) == is_token_char(t[i]) by {
        assert(lower_char(s[i]) == lower_char(t[i]));
    }
    if forall|i: int| 0 <= i < s.len() ==> is_token_char(#[trigger] s[i]) {
        assert forall|i: int| 0 <= i < t.len() implies is_token_char(#[trigger] t[i]) by {
            assert(is_token_char(s[i]));
        }
    }
    if forall|i: int| 0 <= i < t.len() ==> is_token_char(#[trigger] t[i]) {
        assert forall|i: int| 0 <= i < s.len() implies is_token_char(#[trigger] s[i]) by {
            assert(is_token_char(t[i]));
        }
    }
    assert(s.map_values(|c: char| lower_char(c)) =~= t.map_values(|c: char| lower_char(c)));
}

proof fn lemma_canonical_names_finite(f: FieldsView)
    ensures
        canonical_names(f).finite(),
    decreases f.len(),
{
    if f.len() > 0 {
        lemma_canonical_names_finite(f.drop_last());
    }
}

proof fn lemma_canonical_names_prefix(f: FieldsView, k: int)
    requires
        0 <= k <= f.len(),
    ensures
        canonical_names(f.take(k)).subset_of(canonical_names(f)),
    decreases f.len(),
{
    if k == f.len() {
        assert(f.take(k) =~= f);
    } else {
        assert(f.drop_last().take(k) =~= f.take(k));
        lemma_canonical_names_prefix(f.drop_last(), k);
    }
}

proof fn lemma_add_fields_stays_none(e: FieldMap, f: FieldsView, k: int)
    requires
        0 <= k <= f.len(),
        add_fields(e, f.take(k)) is None,
    ensures
        add_fields(e, f) is None,
    decreases f.len(),
{
    if f.len() == k {
        assert(f.take(k) =~= f);
    } else {
        assert(f.drop_last().take(k) =~= f.take(k));
        lemma_add_fields_stays_none(e, f.drop_last(), k);
    }
}

} // verus!
