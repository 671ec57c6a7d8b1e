//! In-memory store for the resources of WASI HTTP: header fields,
//! outgoing requests, request options, responses, bodies and futures, all
//! keyed by `u32` handles.
use crate::wasi_types::{HttpErrorCode, Method, Scheme};
use std::collections::HashMap;
use vstd::prelude::*;

verus! {

broadcast use vstd::std_specs::hash::group_hash_axioms;

/// The first handle the store hands out, well above the filesystem's.
pub const FIRST_HTTP_HANDLE: u32 = 5000;

/// A list of header fields, in order.
pub type FieldList = Vec<(String, Vec<u8>)>;

/// The mathematical value of a list of header fields.
pub type FieldsView = Seq<(Seq<char>, Seq<u8>)>;

pub open spec fn fields_view(f: FieldList) -> FieldsView {
    f@.map_values(|p: (String, Vec<u8>)| (p.0@, p.1@))
}

/// The values of the fields named `name`, in order.
pub open spec fn values_named(f: FieldsView, name: Seq<char>) -> Seq<Seq<u8>>
    decreases f.len(),
{
    if f.len() == 0 {
        Seq::empty()
    } else {
        values_named(f.drop_last(), name) + (if f.last().0 == name {
            seq![f.last().1]
        } else {
            Seq::empty()
        })
    }
}

/// The fields not named `name`, in order.
pub open spec fn without_name(f: FieldsView, name: Seq<char>) -> FieldsView
    decreases f.len(),
{
    if f.len() == 0 {
        Seq::empty()
    } else {
        without_name(f.drop_last(), name) + (if f.last().0 == name {
            Seq::empty()
        } else {
            seq![f.last()]
        })
    }
}

/// Fields named `name` with the given values, in order.
pub open spec fn named(name: Seq<char>, values: Seq<Seq<u8>>) -> FieldsView {
    values.map_values(|v: Seq<u8>| (name, v))
}

/// Stored outgoing request state.
pub struct HttpRequest {
    pub method: String,
    pub scheme: String,
    pub authority: Option<String>,
    pub path_with_query: Option<String>,
    pub headers_handle: u32,
    pub body_handle: Option<u32>,
}

/// The mathematical value of an [`HttpRequest`].
pub struct RequestView {
    pub method: Seq<char>,
    pub scheme: Seq<char>,
    pub authority: Option<Seq<char>>,
    pub path_with_query: Option<Seq<char>>,
    pub headers_handle: u32,
    pub body_handle: Option<u32>,
}

pub open spec fn opt_str_view(s: Option<String>) -> Option<Seq<char>> {
    match s {
        Some(s) => Some(s@),
        None => None,
    }
}

impl View for HttpRequest {
    type V = RequestView;

    open spec fn view(&self) -> RequestView {
        RequestView {
            method: self.method@,
            scheme: self.scheme@,
            authority: opt_str_view(self.authority),
            path_with_query: opt_str_view(self.path_with_query),
            headers_handle: self.headers_handle,
            body_handle: self.body_handle,
        }
    }
}


/// The text under which a method is stored.
pub open spec fn method_text(m: Method) -> Seq<char> {
    match m {
        Method::Get => "GET"@,
        Method::Post => "POST"@,
        Method::Put => "PUT"@,
        Method::Delete => "DELETE"@,
        Method::Head => "HEAD"@,
        Method::Options => "OPTIONS"@,
        Method::Patch => "PATCH"@,
        Method::Connect => "CONNECT"@,
        Method::Trace => "TRACE"@,
        Method::Other(s) => s@,
    }
}

/// `m` is the method that the stored text `s` reads as.
pub open spec fn method_reads_as(s: Seq<char>, m: Method) -> bool {
    if s == "GET"@ {
        m is Get
    } else if s == "POST"@ {
        m is Post
    } else if s == "PUT"@ {
        m is Put
    } else if s == "DELETE"@ {
        m is Delete
    } else if s == "HEAD"@ {
        m is Head
    } else if s == "OPTIONS"@ {
        m is Options
    } else if s == "PATCH"@ {
        m is Patch
    } else {
        m matches Method::Other(t) && t@ == s
    }
}

/// The text under which a scheme is stored; no scheme stores as HTTPS.
pub open spec fn scheme_text(s: Option<Scheme>) -> Seq<char> {
    match s {
        Some(Scheme::HTTP) => "http"@,
        Some(Scheme::HTTPS) => "https"@,
        Some(Scheme::Other(t)) => t@,
        None => "https"@,
    }
}

/// `sc` is the scheme that the stored text `s` reads as.
pub open spec fn scheme_reads_as(s: Seq<char>, sc: Scheme) -> bool {
    if s == "http"@ {
        sc is HTTP
    } else if s == "https"@ {
        sc is HTTPS
    } else {
        sc matches Scheme::Other(t) && t@ == s
    }
}

fn text_is(s: &String, lit: &str) -> (b: bool)
    ensures
        b == (s@ == lit@),
{
    *s == lit.to_owned()
}

fn clone_opt_string(s: &Option<String>) -> (r: Option<String>)
    ensures
        opt_str_view(r) == opt_str_view(*s),
{
    match s {
        Some(t) => Some(t.clone()),
        None => None,
    }
}


/// A character that an HTTP method may hold: the token characters of
/// RFC 9110.
pub open spec fn is_token_char(c: char) -> bool {
    ('0' <= c <= '9') || ('A' <= c <= 'Z') || ('a' <= c <= 'z') || c == '!' || c == '#' || c
        == '$' || c == '%' || c == '&' || c == '\'' || c == '*' || c == '+' || c == '-' || c
        == '.' || c == '^' || c == '_' || c == '`' || c == '|' || c == '~'
}

/// The text is a method that `http` accepts: non-empty, all token
/// characters.
pub open spec fn is_method_token(m: Seq<char>) -> bool {
    m.len() > 0 && forall|i: int| 0 <= i < m.len() ==> is_token_char(#[trigger] m[i])
}

/// `reqwest::Method::from_bytes` (the `http` crate's) accepts a non-empty
/// byte string made only of the token characters of RFC 9110 and refuses
/// every other; a string of chars is taken by its UTF-8 bytes, so a
/// non-ASCII char is refused.
#[verifier::external_body]
pub(crate) fn method_from_bytes_ok(m: &str) -> (b: bool)
    ensures
        b == is_method_token(m@),
{
    reqwest::Method::from_bytes(m.as_bytes()).is_ok()
}

/// The method text names one of the methods the host maps by name.
pub open spec fn is_known_method(m: Seq<char>) -> bool {
    m == "GET"@ || m == "POST"@ || m == "PUT"@ || m == "DELETE"@ || m == "HEAD"@ || m
        == "OPTIONS"@ || m == "PATCH"@ || m == "CONNECT"@ || m == "TRACE"@
}

/// The host part of an authority: what precedes its first `:`.
pub open spec fn host_of(a: Seq<char>) -> Seq<char>
    decreases a.len(),
{
    if a.len() == 0 || a[0] == ':' {
        Seq::empty()
    } else {
        seq![a[0]] + host_of(a.drop_first())
    }
}

/// The path of a request as sent: `/` when it has none, and a leading `/`
/// added where it lacks one.
pub open spec fn sent_path(p: Option<Seq<char>>) -> Seq<char> {
    match p {
        Some(p) => if p.len() > 0 && p[0] == '/' {
            p
        } else {
            seq!['/'] + p
        },
        None => seq!['/'],
    }
}

/// The URL a request is sent to: `scheme://authority/path`.
pub open spec fn url_of(r: RequestView) -> Seq<char> {
    r.scheme + "://"@ + (match r.authority {
        Some(a) => a,
        None => Seq::empty(),
    }) + sent_path(r.path_with_query)
}

/// The domain a request goes to.
pub open spec fn domain_of(r: RequestView) -> Seq<char> {
    host_of(
        match r.authority {
            Some(a) => a,
            None => Seq::empty(),
        },
    )
}

/// What the host sends for a request that passed its checks.
pub struct OutgoingCall {
    /// The future that will hold the outcome.
    pub future: u32,
    pub method: String,
    pub url: String,
    pub headers: FieldList,
    pub body: Vec<u8>,
}

/// The reply to a request: status, header fields and body.
pub struct IncomingReply {
    pub status: u16,
    pub headers: FieldList,
    pub body: Vec<u8>,
}

fn host_part(a: &str) -> (r: String)
    ensures
        r@ == host_of(a@),
{
    let n = a.unicode_len();
    let mut i: usize = 0;
    while i < n
        invariant
            n == a@.len(),
            0 <= i <= n,
            forall|j: int| 0 <= j < i ==> a@[j] != ':',
        ensures
            0 <= i <= n,
            forall|j: int| 0 <= j < i ==> a@[j] != ':',
            i == n || a@[i as int] == ':',
        decreases n - i,
    {
        if a.get_char(i) == ':' {
            break;
        }
        i = i + 1;
    }
    proof {
        lemma_host_of(a@, i as int);
    }
    a.substring_char(0, i).to_owned()
}

/// `host_of` is the prefix before the first `:`.
proof fn lemma_host_of(a: Seq<char>, k: int)
    requires
        0 <= k <= a.len(),
        forall|j: int| 0 <= j < k ==> a[j] != ':',
        k == a.len() || a[k] == ':',
    ensures
        host_of(a) == a.subrange(0, k),
    decreases a.len(),
{
    if a.len() == 0 || a[0] == ':' {
        assert(k == 0);
        assert(a.subrange(0, k) =~= Seq::<char>::empty());
    } else {
        lemma_host_of(a.drop_first(), k - 1);
        assert(a.subrange(0, k) =~= seq![a[0]] + a.drop_first().subrange(0, k - 1));
    }
}

fn contains_string(list: &Vec<String>, s: &String) -> (b: bool)
    ensures
        b == exists|i: int| 0 <= i < list@.len() && #[trigger] list@[i]@ == s@,
{
    let mut i: usize = 0;
    while i < list.len()
        invariant
            0 <= i <= list@.len(),
            forall|j: int| 0 <= j < i ==> list@[j]@ != s@,
        decreases list@.len() - i,
    {
        if list[i] == *s {
            return true;
        }
        i = i + 1;
    }
    false
}

/// The outcome stored for a future response: the response's handle, or
/// the message of the error that ended the request.
pub open spec fn outcome_view(o: Option<Result<u32, String>>) -> Option<Result<u32, Seq<char>>> {
    match o {
        Some(Ok(h)) => Some(Ok(h)),
        Some(Err(m)) => Some(Err(m@)),
        None => None,
    }
}

/// The timeouts of a request, in nanoseconds: connect, first byte,
/// between bytes.
pub type Timeouts = (Option<u64>, Option<u64>, Option<u64>);

/// In-memory store for HTTP resources (fields, requests, responses,
/// bodies).
pub struct HttpStore {
    next_handle: u32,
    fields: HashMap<u32, FieldList>,
    requests: HashMap<u32, HttpRequest>,
    /// Incoming response state: (status code, headers handle, body bytes).
    responses: HashMap<u32, (u16, u32, Vec<u8>)>,
    /// Body buffers.
    outgoing_bodies: HashMap<u32, Vec<u8>>,
    /// Incoming body read cursors.
    incoming_body_cursors: HashMap<u32, usize>,
    /// Future responses: handle to the outcome, once there is one.
    future_responses: HashMap<u32, Option<Result<u32, String>>>,
    /// Request options.
    request_options: HashMap<u32, Timeouts>,
}

/// The mathematical value of an [`HttpStore`].
pub struct HttpView {
    pub next_handle: u32,
    pub fields: Map<u32, FieldsView>,
    pub requests: Map<u32, RequestView>,
    pub responses: Map<u32, (u16, u32, Seq<u8>)>,
    pub bodies: Map<u32, Seq<u8>>,
    pub incoming_body_cursors: Map<u32, usize>,
    pub future_responses: Map<u32, Option<Result<u32, Seq<char>>>>,
    pub request_options: Map<u32, Timeouts>,
}

impl View for HttpStore {
    type V = HttpView;

    closed spec fn view(&self) -> HttpView {
        HttpView {
            next_handle: self.next_handle,
            fields: self.fields@.map_values(|f: FieldList| fields_view(f)),
            requests: self.requests@.map_values(|r: HttpRequest| r@),
            responses: self.responses@.map_values(|r: (u16, u32, Vec<u8>)| (r.0, r.1, r.2@)),
            bodies: self.outgoing_bodies@.map_values(|b: Vec<u8>| b@),
            incoming_body_cursors: self.incoming_body_cursors@,
            future_responses: self.future_responses@.map_values(
                |o: Option<Result<u32, String>>| outcome_view(o),
            ),
            request_options: self.request_options@,
        }
    }
}

impl HttpView {
    /// Every handle in use lies below the next one to hand out.
    pub open spec fn wf(self) -> bool {
        &&& FIRST_HTTP_HANDLE <= self.next_handle
        &&& forall|h: u32| #[trigger] self.fields.contains_key(h) ==> h < self.next_handle
        &&& forall|h: u32| #[trigger] self.requests.contains_key(h) ==> h < self.next_handle
        &&& forall|h: u32| #[trigger] self.responses.contains_key(h) ==> h < self.next_handle
        &&& forall|h: u32| #[trigger] self.bodies.contains_key(h) ==> h < self.next_handle
        &&& forall|h: u32| #[trigger]
            self.incoming_body_cursors.contains_key(h) ==> h < self.next_handle
        &&& forall|h: u32| #[trigger] self.future_responses.contains_key(h) ==> h < self.next_handle
        &&& forall|h: u32| #[trigger] self.request_options.contains_key(h) ==> h < self.next_handle
    }

    /// The handle is not in use anywhere in the store.
    pub open spec fn is_fresh(self, h: u32) -> bool {
        &&& !self.fields.contains_key(h)
        &&& !self.requests.contains_key(h)
        &&& !self.responses.contains_key(h)
        &&& !self.bodies.contains_key(h)
        &&& !self.incoming_body_cursors.contains_key(h)
        &&& !self.future_responses.contains_key(h)
        &&& !self.request_options.contains_key(h)
    }

    /// The handles still to hand out fit in `u32`.
    pub open spec fn can_alloc(self, n: int) -> bool {
        self.next_handle + n <= u32::MAX
    }

    /// The fields of `h`, or none where `h` is unknown.
    pub open spec fn fields_of(self, h: u32) -> FieldsView {
        if self.fields.contains_key(h) {
            self.fields[h]
        } else {
            Seq::empty()
        }
    }
}

pub proof fn lemma_remove_insert<K, V>(m: Map<K, V>, k: K, v: V)
    ensures
        m.remove(k).insert(k, v) == m.insert(k, v),
{
    assert(m.remove(k).insert(k, v) =~= m.insert(k, v));
}

/// The next handle is fresh in a well-formed store.
pub proof fn lemma_next_handle_fresh(s: HttpView)
    requires
        s.wf(),
    ensures
        s.is_fresh(s.next_handle),
{
}

fn copy_bytes(v: &Vec<u8>) -> (out: Vec<u8>)
    ensures
        out@ == v@,
{
    let mut out: Vec<u8> = Vec::new();
    let mut i: usize = 0;
    while i < v.len()
        invariant
            0 <= i <= v@.len(),
            out@ == v@.take(i as int),
        decreases v@.len() - i,
    {
        out.push(v[i]);
        i = i + 1;
        assert(out@ =~= v@.take(i as int));
    }
    assert(v@.take(v@.len() as int) =~= v@);
    out
}

fn copy_fields(f: &FieldList) -> (out: FieldList)
    ensures
        fields_view(out) == fields_view(*f),
{
    let mut out: FieldList = Vec::new();
    let mut i: usize = 0;
    while i < f.len()
        invariant
            0 <= i <= f@.len(),
            out@.len() == i,
            fields_view(out) == fields_view(*f).take(i as int),
        decreases f@.len() - i,
    {
        let name = f[i].0.clone();
        let bytes = copy_bytes(&f[i].1);
        let ghost before = out@;
        out.push((name, bytes));
        assert(out@ == before.push((name, bytes)));
        assert(fields_view(out)[i as int] == fields_view(*f)[i as int]);
        i = i + 1;
        assert(fields_view(out) =~= fields_view(*f).take(i as int));
    }
    assert(fields_view(*f).take(f@.len() as int) =~= fields_view(*f));
    out
}

pub open spec fn bytes_list_view(v: Vec<Vec<u8>>) -> Seq<Seq<u8>> {
    v@.map_values(|b: Vec<u8>| b@)
}

fn filter_values(f: &FieldList, name: &String) -> (out: Vec<Vec<u8>>)
    ensures
        bytes_list_view(out) == values_named(fields_view(*f), name@),
{
    let ghost fv = fields_view(*f);
    let mut out: Vec<Vec<u8>> = Vec::new();
    let mut i: usize = 0;
    while i < f.len()
        invariant
            0 <= i <= f@.len(),
            fv == fields_view(*f),
            bytes_list_view(out) == values_named(fv.take(i as int), name@),
        decreases f@.len() - i,
    {
        assert(fv.take(i + 1).drop_last() =~= fv.take(i as int));
        if f[i].0 == *name {
            let ghost before = out@;
            out.push(copy_bytes(&f[i].1));
            assert(bytes_list_view(out) =~= values_named(fv.take(i as int), name@) + seq![
                fv[i as int].1,
            ]);
        }
        i = i + 1;
        assert(bytes_list_view(out) =~= values_named(fv.take(i as int), name@));
    }
    assert(fv.take(f@.len() as int) =~= fv);
    out
}

fn remove_named(f: &FieldList, name: &String) -> (out: FieldList)
    ensures
        fields_view(out) == without_name(fields_view(*f), name@),
{
    let ghost fv = fields_view(*f);
    let mut out: FieldList = Vec::new();
    let mut i: usize = 0;
    while i < f.len()
        invariant
            0 <= i <= f@.len(),
            fv == fields_view(*f),
            fields_view(out) == without_name(fv.take(i as int), name@),
        decreases f@.len() - i,
    {
        assert(fv.take(i + 1).drop_last() =~= fv.take(i as int));
        if f[i].0 != *name {
            let key = f[i].0.clone();
            let bytes = copy_bytes(&f[i].1);
            out.push((key, bytes));
            assert(fields_view(out) =~= without_name(fv.take(i as int), name@) + seq![
                fv[i as int],
            ]);
        }
        i = i + 1;
        assert(fields_view(out) =~= without_name(fv.take(i as int), name@));
    }
    assert(fv.take(f@.len() as int) =~= fv);
    out
}

fn has_named(f: &FieldList, name: &String) -> (b: bool)
    ensures
        b == (values_named(fields_view(*f), name@).len() > 0),
{
    let ghost fv = fields_view(*f);
    let mut i: usize = 0;
    while i < f.len()
        invariant
            0 <= i <= f@.len(),
            fv == fields_view(*f),
            values_named(fv.take(i as int), name@).len() == 0,
        decreases f@.len() - i,
    {
        assert(fv.take(i + 1).drop_last() =~= fv.take(i as int));
        if f[i].0 == *name {
            proof {
                assert(values_named(fv.take(i + 1), name@).len() > 0);
                lemma_values_named_prefix(fv, name@, i + 1);
            }
            return true;
        }
        i = i + 1;
    }
    assert(fv.take(f@.len() as int) =~= fv);
    false
}

/// The values named in a prefix are a prefix of the values named.
pub proof fn lemma_values_named_prefix(f: FieldsView, name: Seq<char>, k: int)
    requires
        0 <= k <= f.len(),
    ensures
        values_named(f.take(k), name).len() <= values_named(f, name).len(),
    decreases f.len(),
{
    if k < f.len() {
        assert(f.drop_last().take(k) =~= f.take(k));
        lemma_values_named_prefix(f.drop_last(), name, k);
    } else {
        assert(f.take(k) =~= f);
    }
}

impl HttpStore {
    pub fn new() -> (s: Self)
        ensures
            s@.wf(),
            s@.next_handle == FIRST_HTTP_HANDLE,
            s@.fields.is_empty(),
            s@.requests.is_empty(),
            s@.responses.is_empty(),
            s@.bodies.is_empty(),
            s@.incoming_body_cursors.is_empty(),
            s@.future_responses.is_empty(),
            s@.request_options.is_empty(),
    {
        let s = Self {
            next_handle: FIRST_HTTP_HANDLE,
            fields: HashMap::new(),
            requests: HashMap::new(),
            responses: HashMap::new(),
            outgoing_bodies: HashMap::new(),
            incoming_body_cursors: HashMap::new(),
            future_responses: HashMap::new(),
            request_options: HashMap::new(),
        };
        assert(s@.fields =~= Map::empty());
        assert(s@.requests =~= Map::empty());
        assert(s@.responses =~= Map::empty());
        assert(s@.bodies =~= Map::empty());
        assert(s@.future_responses =~= Map::empty());
        s
    }

    /// The handle that will be handed out next.
    pub fn next_handle(&self) -> (h: u32)
        ensures
            h == self@.next_handle,
    {
        self.next_handle
    }

    /// Hand out the next handle.
    pub fn alloc_handle(&mut self) -> (h: u32)
        requires
            old(self)@.wf(),
            old(self)@.can_alloc(1),
        ensures
            final(self)@.wf(),
            h == old(self)@.next_handle,
            old(self)@.is_fresh(h),
            final(self)@ == (HttpView { next_handle: (h + 1) as u32, ..old(self)@ }),
    {
        let h = self.next_handle;
        self.next_handle = self.next_handle + 1;
        h
    }


    // ----- Outgoing requests -----
    fn put_request(&mut self, h: u32, r: HttpRequest)
        requires
            old(self)@.wf(),
            h < old(self)@.next_handle,
        ensures
            final(self)@.wf(),
            final(self)@ == (HttpView { requests: old(self)@.requests.insert(h, r@), ..old(self)@ }),
    {
        self.requests.insert(h, r);
        assert(self@.requests =~= old(self)@.requests.insert(h, r@));
    }

    /// Take the request `h` out of the store to change it.
    fn take_request(&mut self, h: u32) -> (r: Option<HttpRequest>)
        requires
            old(self)@.wf(),
        ensures
            final(self)@.wf(),
            match r {
                Some(req) => old(self)@.requests.contains_key(h) && req@ == old(self)@.requests[h]
                    && final(self)@ == (HttpView {
                    requests: old(self)@.requests.remove(h),
                    ..old(self)@
                }),
                None => !old(self)@.requests.contains_key(h) && final(self)@ == old(self)@,
            },
    {
        if !self.requests.contains_key(&h) {
            return None;
        }
        let r = self.requests.remove(&h);
        assert(self@.requests =~= old(self)@.requests.remove(h));
        r
    }

    /// A new request for `GET https://` with the given headers and no body.
    pub fn request_new(&mut self, headers: u32) -> (h: u32)
        requires
            old(self)@.wf(),
            old(self)@.can_alloc(1),
        ensures
            final(self)@.wf(),
            h == old(self)@.next_handle,
            old(self)@.is_fresh(h),
            final(self)@ == (HttpView {
                next_handle: (h + 1) as u32,
                requests: old(self)@.requests.insert(
                    h,
                    RequestView {
                        method: "GET"@,
                        scheme: "https"@,
                        authority: None,
                        path_with_query: None,
                        headers_handle: headers,
                        body_handle: None,
                    },
                ),
                ..old(self)@
            }),
    {
        let h = self.alloc_handle();
        self.put_request(
            h,
            HttpRequest {
                method: "GET".to_owned(),
                scheme: "https".to_owned(),
                authority: None,
                path_with_query: None,
                headers_handle: headers,
                body_handle: None,
            },
        );
        h
    }

    /// A new, empty body for the request `h`.
    pub fn request_body(&mut self, h: u32) -> (r: Result<u32, ()>)
        requires
            old(self)@.wf(),
            old(self)@.can_alloc(1),
        ensures
            final(self)@.wf(),
            r == Ok::<u32, ()>(old(self)@.next_handle),
            old(self)@.is_fresh(old(self)@.next_handle),
            ({
                let b = old(self)@.next_handle;
                let with_body = HttpView {
                    next_handle: (b + 1) as u32,
                    bodies: old(self)@.bodies.insert(b, Seq::empty()),
                    ..old(self)@
                };
                final(self)@ == (if old(self)@.requests.contains_key(h) {
                    HttpView {
                        requests: with_body.requests.insert(
                            h,
                            RequestView { body_handle: Some(b), ..old(self)@.requests[h] },
                        ),
                        ..with_body
                    }
                } else {
                    with_body
                })
            }),
    {
        let body_h = self.alloc_handle();
        self.outgoing_bodies.insert(body_h, Vec::new());
        assert(self@.bodies =~= old(self)@.bodies.insert(body_h, Seq::empty()));
        if let Some(mut req) = self.take_request(h) {
            req.body_handle = Some(body_h);
            self.put_request(h, req);
            assert(self@.requests =~= old(self)@.requests.insert(
                h,
                RequestView { body_handle: Some(body_h), ..old(self)@.requests[h] },
            ));
        }
        Ok(body_h)
    }

    /// The method of the request `h`; an unknown request reads as `GET`.
    pub fn request_method(&self, h: u32) -> (m: Method)
        ensures
            method_reads_as(
                if self@.requests.contains_key(h) {
                    self@.requests[h].method
                } else {
                    "GET"@
                },
                m,
            ),
    {
        let text = match self.requests.get(&h) {
            Some(r) => r.method.clone(),
            None => "GET".to_owned(),
        };
        if text_is(&text, "GET") {
            Method::Get
        } else if text_is(&text, "POST") {
            Method::Post
        } else if text_is(&text, "PUT") {
            Method::Put
        } else if text_is(&text, "DELETE") {
            Method::Delete
        } else if text_is(&text, "HEAD") {
            Method::Head
        } else if text_is(&text, "OPTIONS") {
            Method::Options
        } else if text_is(&text, "PATCH") {
            Method::Patch
        } else {
            Method::Other(text)
        }
    }

    pub fn request_set_method(&mut self, h: u32, method: Method) -> (r: Result<(), ()>)
        requires
            old(self)@.wf(),
        ensures
            final(self)@.wf(),
            r is Ok,
            final(self)@ == (if old(self)@.requests.contains_key(h) {
                HttpView {
                    requests: old(self)@.requests.insert(
                        h,
                        RequestView { method: method_text(method), ..old(self)@.requests[h] },
                    ),
                    ..old(self)@
                }
            } else {
                old(self)@
            }),
    {
        let text = match method {
            Method::Get => "GET".to_owned(),
            Method::Post => "POST".to_owned(),
            Method::Put => "PUT".to_owned(),
            Method::Delete => "DELETE".to_owned(),
            Method::Head => "HEAD".to_owned(),
            Method::Options => "OPTIONS".to_owned(),
            Method::Patch => "PATCH".to_owned(),
            Method::Connect => "CONNECT".to_owned(),
            Method::Trace => "TRACE".to_owned(),
            Method::Other(m) => m,
        };
        if let Some(mut req) = self.take_request(h) {
            req.method = text;
            proof {
                lemma_remove_insert(old(self)@.requests, h, req@);
            }
            self.put_request(h, req);
        }
        Ok(())
    }

    pub fn request_path_with_query(&self, h: u32) -> (r: Option<String>)
        ensures
            opt_str_view(r) == (if self@.requests.contains_key(h) {
                self@.requests[h].path_with_query
            } else {
                None
            }),
    {
        match self.requests.get(&h) {
            Some(req) => clone_opt_string(&req.path_with_query),
            None => None,
        }
    }

    pub fn request_set_path_with_query(&mut self, h: u32, path: Option<String>) -> (r: Result<(), ()>)
        requires
            old(self)@.wf(),
        ensures
            final(self)@.wf(),
            r is Ok,
            final(self)@ == (if old(self)@.requests.contains_key(h) {
                HttpView {
                    requests: old(self)@.requests.insert(
                        h,
                        RequestView { path_with_query: opt_str_view(path), ..old(self)@.requests[h] },
                    ),
                    ..old(self)@
                }
            } else {
                old(self)@
            }),
    {
        if let Some(mut req) = self.take_request(h) {
            req.path_with_query = path;
            proof {
                lemma_remove_insert(old(self)@.requests, h, req@);
            }
            self.put_request(h, req);
        }
        Ok(())
    }

    /// The scheme of the request `h`; none for an unknown request.
    pub fn request_scheme(&self, h: u32) -> (r: Option<Scheme>)
        ensures
            self@.requests.contains_key(h) ==> (r matches Some(sc) && scheme_reads_as(
                self@.requests[h].scheme,
                sc,
            )),
            !self@.requests.contains_key(h) ==> r is None,
    {
        match self.requests.get(&h) {
            Some(req) => {
                let text = req.scheme.clone();
                if text_is(&text, "http") {
                    Some(Scheme::HTTP)
                } else if text_is(&text, "https") {
                    Some(Scheme::HTTPS)
                } else {
                    Some(Scheme::Other(text))
                }
            },
            None => None,
        }
    }

    pub fn request_set_scheme(&mut self, h: u32, scheme: Option<Scheme>) -> (r: Result<(), ()>)
        requires
            old(self)@.wf(),
        ensures
            final(self)@.wf(),
            r is Ok,
            final(self)@ == (if old(self)@.requests.contains_key(h) {
                HttpView {
                    requests: old(self)@.requests.insert(
                        h,
                        RequestView { scheme: scheme_text(scheme), ..old(self)@.requests[h] },
                    ),
                    ..old(self)@
                }
            } else {
                old(self)@
            }),
    {
        let text = match scheme {
            Some(Scheme::HTTP) => "http".to_owned(),
            Some(Scheme::HTTPS) | None => "https".to_owned(),
            Some(Scheme::Other(s)) => s,
        };
        if let Some(mut req) = self.take_request(h) {
            req.scheme = text;
            proof {
                lemma_remove_insert(old(self)@.requests, h, req@);
            }
            self.put_request(h, req);
        }
        Ok(())
    }

    pub fn request_authority(&self, h: u32) -> (r: Option<String>)
        ensures
            opt_str_view(r) == (if self@.requests.contains_key(h) {
                self@.requests[h].authority
            } else {
                None
            }),
    {
        match self.requests.get(&h) {
            Some(req) => clone_opt_string(&req.authority),
            None => None,
        }
    }

    pub fn request_set_authority(&mut self, h: u32, authority: Option<String>) -> (r: Result<(), ()>)
        requires
            old(self)@.wf(),
        ensures
            final(self)@.wf(),
            r is Ok,
            final(self)@ == (if old(self)@.requests.contains_key(h) {
                HttpView {
                    requests: old(self)@.requests.insert(
                        h,
                        RequestView { authority: opt_str_view(authority), ..old(self)@.requests[h] },
                    ),
                    ..old(self)@
                }
            } else {
                old(self)@
            }),
    {
        if let Some(mut req) = self.take_request(h) {
            req.authority = authority;
            proof {
                lemma_remove_insert(old(self)@.requests, h, req@);
            }
            self.put_request(h, req);
        }
        Ok(())
    }


    // ----- Request options -----
    pub fn options_new(&mut self) -> (h: u32)
        requires
            old(self)@.wf(),
            old(self)@.can_alloc(1),
        ensures
            final(self)@.wf(),
            h == old(self)@.next_handle,
            old(self)@.is_fresh(h),
            final(self)@ == (HttpView {
                next_handle: (h + 1) as u32,
                request_options: old(self)@.request_options.insert(h, (None, None, None)),
                ..old(self)@
            }),
    {
        let h = self.alloc_handle();
        self.request_options.insert(h, (None, None, None));
        h
    }

    fn put_options(&mut self, h: u32, o: Timeouts)
        requires
            old(self)@.wf(),
            old(self)@.request_options.contains_key(h),
        ensures
            final(self)@.wf(),
            final(self)@ == (HttpView {
                request_options: old(self)@.request_options.insert(h, o),
                ..old(self)@
            }),
    {
        self.request_options.insert(h, o);
    }

    /// The connect timeout, in nanoseconds, of the options `h`.
    pub fn connect_timeout(&self, h: u32) -> (r: Option<u64>)
        ensures
            r == (if self@.request_options.contains_key(h) {
                self@.request_options[h].0
            } else {
                None
            }),
    {
        match self.request_options.get(&h) {
            Some(o) => o.0,
            None => None,
        }
    }

    pub fn set_connect_timeout(&mut self, h: u32, duration: Option<u64>) -> (r: Result<(), ()>)
        requires
            old(self)@.wf(),
        ensures
            final(self)@.wf(),
            r is Ok,
            final(self)@ == (if old(self)@.request_options.contains_key(h) {
                let o = old(self)@.request_options[h];
                HttpView {
                    request_options: old(self)@.request_options.insert(h, (duration, o.1, o.2)),
                    ..old(self)@
                }
            } else {
                old(self)@
            }),
    {
        if let Some(o) = self.request_options.get(&h) {
            let next = (duration, o.1, o.2);
            self.put_options(h, next);
        }
        Ok(())
    }

    /// The first-byte timeout, in nanoseconds, of the options `h`.
    pub fn first_byte_timeout(&self, h: u32) -> (r: Option<u64>)
        ensures
            r == (if self@.request_options.contains_key(h) {
                self@.request_options[h].1
            } else {
                None
            }),
    {
        match self.request_options.get(&h) {
            Some(o) => o.1,
            None => None,
        }
    }

    pub fn set_first_byte_timeout(&mut self, h: u32, duration: Option<u64>) -> (r: Result<(), ()>)
        requires
            old(self)@.wf(),
        ensures
            final(self)@.wf(),
            r is Ok,
            final(self)@ == (if old(self)@.request_options.contains_key(h) {
                let o = old(self)@.request_options[h];
                HttpView {
                    request_options: old(self)@.request_options.insert(h, (o.0, duration, o.2)),
                    ..old(self)@
                }
            } else {
                old(self)@
            }),
    {
        if let Some(o) = self.request_options.get(&h) {
            let next = (o.0, duration, o.2);
            self.put_options(h, next);
        }
        Ok(())
    }

    /// The between-bytes timeout, in nanoseconds, of the options `h`.
    pub fn between_bytes_timeout(&self, h: u32) -> (r: Option<u64>)
        ensures
            r == (if self@.request_options.contains_key(h) {
                self@.request_options[h].2
            } else {
                None
            }),
    {
        match self.request_options.get(&h) {
            Some(o) => o.2,
            None => None,
        }
    }

    pub fn set_between_bytes_timeout(&mut self, h: u32, duration: Option<u64>) -> (r: Result<
        (),
        (),
    >)
        requires
            old(self)@.wf(),
        ensures
            final(self)@.wf(),
            r is Ok,
            final(self)@ == (if old(self)@.request_options.contains_key(h) {
                let o = old(self)@.request_options[h];
                HttpView {
                    request_options: old(self)@.request_options.insert(h, (o.0, o.1, duration)),
                    ..old(self)@
                }
            } else {
                old(self)@
            }),
    {
        if let Some(o) = self.request_options.get(&h) {
            let next = (o.0, o.1, duration);
            self.put_options(h, next);
        }
        Ok(())
    }

    // ----- Incoming responses -----
    /// The status of the response `h`; 0 for an unknown response.
    pub fn response_status(&self, h: u32) -> (r: u16)
        ensures
            r == (if self@.responses.contains_key(h) {
                self@.responses[h].0
            } else {
                0
            }),
    {
        match self.responses.get(&h) {
            Some(resp) => resp.0,
            None => 0,
        }
    }

    /// The header fields handle of the response `h`; 0 for an unknown
    /// response.
    pub fn response_headers(&self, h: u32) -> (r: u32)
        ensures
            r == (if self@.responses.contains_key(h) {
                self@.responses[h].1
            } else {
                0
            }),
    {
        match self.responses.get(&h) {
            Some(resp) => resp.1,
            None => 0,
        }
    }

    /// A body holding the bytes of the response `h` (none for an unknown
    /// response), with its read cursor at the start.
    pub fn response_consume(&mut self, h: u32) -> (r: Result<u32, ()>)
        requires
            old(self)@.wf(),
            old(self)@.can_alloc(1),
        ensures
            final(self)@.wf(),
            r == Ok::<u32, ()>(old(self)@.next_handle),
            old(self)@.is_fresh(old(self)@.next_handle),
            final(self)@ == (HttpView {
                next_handle: (old(self)@.next_handle + 1) as u32,
                bodies: old(self)@.bodies.insert(
                    old(self)@.next_handle,
                    if old(self)@.responses.contains_key(h) {
                        old(self)@.responses[h].2
                    } else {
                        Seq::empty()
                    },
                ),
                incoming_body_cursors: old(self)@.incoming_body_cursors.insert(
                    old(self)@.next_handle,
                    0,
                ),
                ..old(self)@
            }),
    {
        let body_data = match self.responses.get(&h) {
            Some(resp) => copy_bytes(&resp.2),
            None => Vec::new(),
        };
        let body_h = self.alloc_handle();
        let ghost data = body_data@;
        self.outgoing_bodies.insert(body_h, body_data);
        self.incoming_body_cursors.insert(body_h, 0);
        assert(self@.bodies =~= old(self)@.bodies.insert(body_h, data));
        Ok(body_h)
    }

    // ----- Future responses -----
    /// The outcome of a request: the response's handle, the error that
    /// ended it, or none while it is pending or the handle is unknown.
    pub fn future_response_get(&self, h: u32) -> (r: Option<Result<Result<u32, HttpErrorCode>, ()>>)
        ensures
            match (if self@.future_responses.contains_key(h) {
                self@.future_responses[h]
            } else {
                None
            }) {
                Some(Ok(resp)) => r == Some(Ok::<Result<u32, HttpErrorCode>, ()>(Ok(resp))),
                Some(Err(msg)) => r matches Some(Ok(Err(HttpErrorCode::InternalError(Some(m)))))
                    && m@ == msg,
                None => r is None,
            },
    {
        let future = match self.future_responses.get(&h) {
            Some(f) => f,
            None => return None,
        };
        match future {
            Some(Ok(resp_h)) => Some(Ok(Ok(*resp_h))),
            Some(Err(msg)) => Some(Ok(Err(HttpErrorCode::InternalError(Some(msg.clone()))))),
            None => None,
        }
    }

    // ----- Outgoing handler -----
    /// Check the request `request` and take it out of the store to send it.
    ///
    /// The request is refused when unknown, when its domain is not in
    /// `allowed`, or when its method is not a valid HTTP method. A request
    /// that passes gets a pending future, and the call describes what to
    /// send: its method, its URL, its header fields and its body.
    pub fn prepare_request(&mut self, request: u32, allowed: &Vec<String>) -> (r: Result<
        OutgoingCall,
        HttpErrorCode,
    >)
        requires
            old(self)@.wf(),
            old(self)@.can_alloc(1),
        ensures
            final(self)@.wf(),
            !old(self)@.requests.contains_key(request) ==> final(self)@ == old(self)@ && (
            r matches Err(HttpErrorCode::InternalError(Some(m))) && m@
                == "unknown request handle"@),
            old(self)@.requests.contains_key(request) ==> {
                let req = old(self)@.requests[request];
                let removed = HttpView {
                    requests: old(self)@.requests.remove(request),
                    ..old(self)@
                };
                if !(exists|i: int|
                    0 <= i < allowed@.len() && #[trigger] allowed@[i]@ == domain_of(req)) {
                    (r matches Err(HttpErrorCode::HTTPRequestDenied)) && final(self)@ == removed
                } else if !is_known_method(req.method) && !is_method_token(req.method) {
                    (r matches Err(HttpErrorCode::HTTPRequestMethodInvalid)) && final(self)@
                        == removed
                } else {
                    let f = old(self)@.next_handle;
                    &&& r is Ok
                    &&& r->Ok_0.future == f
                    &&& r->Ok_0.method@ == req.method
                    &&& r->Ok_0.url@ == url_of(req)
                    &&& fields_view(r->Ok_0.headers) == old(self)@.fields_of(req.headers_handle)
                    &&& r->Ok_0.body@ == (match req.body_handle {
                        Some(b) => if old(self)@.bodies.contains_key(b) {
                            old(self)@.bodies[b]
                        } else {
                            Seq::empty()
                        },
                        None => Seq::empty(),
                    })
                    &&& old(self)@.is_fresh(f)
                    &&& final(self)@ == (HttpView {
                        next_handle: (f + 1) as u32,
                        future_responses: old(self)@.future_responses.insert(f, None),
                        ..removed
                    })
                }
            },
    {
        let req = match self.take_request(request) {
            Some(req) => req,
            None => {
                return Err(HttpErrorCode::InternalError(Some("unknown request handle".to_owned())));
            },
        };
        let mut url = req.scheme.clone();
        url.append("://");
        let authority = match &req.authority {
            Some(a) => a.clone(),
            None => "".to_owned(),
        };
        proof {
            reveal_strlit("");
            reveal_strlit("/");
        }
        url.append(authority.as_str());
        let path = match &req.path_with_query {
            Some(p) => p.clone(),
            None => "/".to_owned(),
        };
        let starts_with_slash = path.as_str().unicode_len() > 0 && path.as_str().get_char(0) == '/';
        if starts_with_slash {
            url.append(path.as_str());
        } else {
            url.append("/");
            url.append(path.as_str());
        }
        assert(url@ =~= url_of(req@));

        // Domain allowlist check
        let domain = host_part(authority.as_str());
        if !contains_string(allowed, &domain) {
            return Err(HttpErrorCode::HTTPRequestDenied);
        }
        let method = req.method;
        let known = text_is(&method, "GET") || text_is(&method, "POST") || text_is(&method, "PUT")
            || text_is(&method, "DELETE") || text_is(&method, "HEAD") || text_is(&method, "OPTIONS")
            || text_is(&method, "PATCH") || text_is(&method, "CONNECT") || text_is(&method, "TRACE");
        if !known && !method_from_bytes_ok(method.as_str()) {
            return Err(HttpErrorCode::HTTPRequestMethodInvalid);
        }
        let headers = self.fields_entries(req.headers_handle);
        let body = match req.body_handle {
            Some(b) => match self.outgoing_bodies.get(&b) {
                Some(bytes) => copy_bytes(bytes),
                None => Vec::new(),
            },
            None => Vec::new(),
        };
        let future = self.alloc_handle();
        self.future_responses.insert(future, None);
        assert(self@.future_responses =~= old(self)@.future_responses.insert(future, None));
        Ok(OutgoingCall { future, method, url, headers, body })
    }

    /// Record the outcome of a sent request in its future: the reply's
    /// header fields and the response each get a new handle, or the error
    /// message is kept.
    pub fn complete_request(&mut self, future: u32, outcome: Result<IncomingReply, String>)
        requires
            old(self)@.wf(),
            old(self)@.can_alloc(2),
            future < old(self)@.next_handle,
        ensures
            final(self)@.wf(),
            match outcome {
                Ok(reply) => {
                    let fh = old(self)@.next_handle;
                    let rh = (fh + 1) as u32;
                    &&& old(self)@.is_fresh(fh)
                    &&& final(self)@ == (HttpView {
                        next_handle: (fh + 2) as u32,
                        fields: old(self)@.fields.insert(fh, fields_view(reply.headers)),
                        responses: old(self)@.responses.insert(rh, (reply.status, fh, reply.body@)),
                        future_responses: old(self)@.future_responses.insert(future, Some(Ok(rh))),
                        ..old(self)@
                    })
                },
                Err(msg) => final(self)@ == (HttpView {
                    future_responses: old(self)@.future_responses.insert(future, Some(Err(msg@))),
                    ..old(self)@
                }),
            },
    {
        match outcome {
            Ok(reply) => {
                let headers_h = self.alloc_handle();
                self.put_fields(headers_h, reply.headers);
                let resp_h = self.alloc_handle();
                let ghost body = reply.body@;
                self.responses.insert(resp_h, (reply.status, headers_h, reply.body));
                assert(self@.responses =~= old(self)@.responses.insert(
                    resp_h,
                    (reply.status, headers_h, body),
                ));
                self.future_responses.insert(future, Some(Ok(resp_h)));
                assert(self@.future_responses =~= old(self)@.future_responses.insert(
                    future,
                    Some(Ok(resp_h)),
                ));
            },
            Err(msg) => {
                let ghost m = msg@;
                self.future_responses.insert(future, Some(Err(msg)));
                assert(self@.future_responses =~= old(self)@.future_responses.insert(
                    future,
                    Some(Err(m)),
                ));
            },
        }
    }

    // ----- Fields (headers and trailers) -----
    fn put_fields(&mut self, h: u32, f: FieldList)
        requires
            old(self)@.wf(),
            h < old(self)@.next_handle,
        ensures
            final(self)@.wf(),
            final(self)@ == (HttpView {
                fields: old(self)@.fields.insert(h, fields_view(f)),
                ..old(self)@
            }),
    {
        self.fields.insert(h, f);
        assert(self@.fields =~= old(self)@.fields.insert(h, fields_view(f)));
    }

    pub fn fields_new(&mut self) -> (h: u32)
        requires
            old(self)@.wf(),
            old(self)@.can_alloc(1),
        ensures
            final(self)@.wf(),
            h == old(self)@.next_handle,
            old(self)@.is_fresh(h),
            final(self)@ == (HttpView {
                next_handle: (h + 1) as u32,
                fields: old(self)@.fields.insert(h, Seq::empty()),
                ..old(self)@
            }),
    {
        let h = self.alloc_handle();
        let empty: FieldList = Vec::new();
        assert(fields_view(empty) =~= Seq::empty());
        self.put_fields(h, empty);
        h
    }

    pub fn fields_from_list(&mut self, entries: FieldList) -> (r: Result<u32, u32>)
        requires
            old(self)@.wf(),
            old(self)@.can_alloc(1),
        ensures
            final(self)@.wf(),
            r == Ok::<u32, u32>(old(self)@.next_handle),
            old(self)@.is_fresh(old(self)@.next_handle),
            final(self)@ == (HttpView {
                next_handle: (old(self)@.next_handle + 1) as u32,
                fields: old(self)@.fields.insert(old(self)@.next_handle, fields_view(entries)),
                ..old(self)@
            }),
    {
        let h = self.alloc_handle();
        self.put_fields(h, entries);
        Ok(h)
    }

    /// The values of the fields named `name`, in order; none for an
    /// unknown handle.
    pub fn fields_get(&self, h: u32, name: &str) -> (r: Vec<Vec<u8>>)
        ensures
            bytes_list_view(r) == values_named(self@.fields_of(h), name@),
    {
        let wanted = name.to_owned();
        match self.fields.get(&h) {
            Some(f) => filter_values(f, &wanted),
            None => {
                let r: Vec<Vec<u8>> = Vec::new();
                assert(bytes_list_view(r) =~= Seq::empty());
                r
            },
        }
    }

    pub fn fields_has(&self, h: u32, name: &str) -> (b: bool)
        ensures
            b == (values_named(self@.fields_of(h), name@).len() > 0),
    {
        let wanted = name.to_owned();
        match self.fields.get(&h) {
            Some(f) => has_named(f, &wanted),
            None => false,
        }
    }

    /// Replace the values of the fields named `name`: the others keep
    /// their order and the new values follow them.
    pub fn fields_set(&mut self, h: u32, name: &str, values: Vec<Vec<u8>>) -> (r: Result<(), u32>)
        requires
            old(self)@.wf(),
        ensures
            final(self)@.wf(),
            r is Ok,
            final(self)@ == (if old(self)@.fields.contains_key(h) {
                HttpView {
                    fields: old(self)@.fields.insert(
                        h,
                        without_name(old(self)@.fields[h], name@) + named(
                            name@,
                            bytes_list_view(values),
                        ),
                    ),
                    ..old(self)@
                }
            } else {
                old(self)@
            }),
    {
        if !self.fields.contains_key(&h) {
            return Ok(());
        }
        assert(self@.fields.contains_key(h));
        let wanted = name.to_owned();
        let kept = match self.fields.get(&h) {
            Some(f) => remove_named(f, &wanted),
            None => return Ok(()),
        };
        let mut f = kept;
        let ghost base = fields_view(f);
        let mut i: usize = 0;
        while i < values.len()
            invariant
                0 <= i <= values@.len(),
                f@.len() == base.len() + i,
                fields_view(f) == base + named(name@, bytes_list_view(values)).take(i as int),
                wanted@ == name@,
            decreases values@.len() - i,
        {
            let key = wanted.clone();
            let bytes = copy_bytes(&values[i]);
            let ghost before = f@;
            let ghost prev = fields_view(f);
            f.push((key, bytes));
            assert(f@ == before.push((key, bytes)));
            assert(fields_view(f) =~= prev.push((name@, bytes_list_view(values)[i as int])));
            let ghost nv = named(name@, bytes_list_view(values));
            assert(nv[i as int] == (name@, bytes_list_view(values)[i as int]));
            assert(nv.take(i + 1) =~= nv.take(i as int).push(nv[i as int]));
            i = i + 1;
            assert(fields_view(f) =~= base + named(name@, bytes_list_view(values)).take(i as int));
        }
        assert(named(name@, bytes_list_view(values)).take(values@.len() as int) =~= named(
            name@,
            bytes_list_view(values),
        ));
        self.put_fields(h, f);
        Ok(())
    }

    pub fn fields_delete(&mut self, h: u32, name: &str) -> (r: Result<(), u32>)
        requires
            old(self)@.wf(),
        ensures
            final(self)@.wf(),
            r is Ok,
            final(self)@ == (if old(self)@.fields.contains_key(h) {
                HttpView {
                    fields: old(self)@.fields.insert(h, without_name(old(self)@.fields[h], name@)),
                    ..old(self)@
                }
            } else {
                old(self)@
            }),
    {
        if !self.fields.contains_key(&h) {
            return Ok(());
        }
        assert(self@.fields.contains_key(h));
        let wanted = name.to_owned();
        let kept = match self.fields.get(&h) {
            Some(f) => remove_named(f, &wanted),
            None => return Ok(()),
        };
        self.put_fields(h, kept);
        Ok(())
    }

    pub fn fields_append(&mut self, h: u32, name: &str, value: Vec<u8>) -> (r: Result<(), u32>)
        requires
            old(self)@.wf(),
        ensures
            final(self)@.wf(),
            r is Ok,
            final(self)@ == (if old(self)@.fields.contains_key(h) {
                HttpView {
                    fields: old(self)@.fields.insert(
                        h,
                        old(self)@.fields[h].push((name@, value@)),
                    ),
                    ..old(self)@
                }
            } else {
                old(self)@
            }),
    {
        if !self.fields.contains_key(&h) {
            return Ok(());
        }
        assert(self@.fields.contains_key(h));
        let mut f = match self.fields.get(&h) {
            Some(f) => copy_fields(f),
            None => return Ok(()),
        };
        f.push((name.to_owned(), value));
        assert(fields_view(f) =~= old(self)@.fields[h].push((name@, value@)));
        self.put_fields(h, f);
        Ok(())
    }

    pub fn fields_entries(&self, h: u32) -> (r: FieldList)
        ensures
            fields_view(r) == self@.fields_of(h),
    {
        match self.fields.get(&h) {
            Some(f) => copy_fields(f),
            None => {
                let r: FieldList = Vec::new();
                assert(fields_view(r) =~= Seq::empty());
                r
            },
        }
    }

    /// Copy the fields of `h` under a new handle.
    pub fn fields_clone(&mut self, h: u32) -> (r: u32)
        requires
            old(self)@.wf(),
            old(self)@.can_alloc(1),
        ensures
            final(self)@.wf(),
            r == old(self)@.next_handle,
            old(self)@.is_fresh(r),
            final(self)@ == (HttpView {
                next_handle: (r + 1) as u32,
                fields: old(self)@.fields.insert(r, old(self)@.fields_of(h)),
                ..old(self)@
            }),
    {
        let entries = self.fields_entries(h);
        let h2 = self.alloc_handle();
        self.put_fields(h2, entries);
        h2
    }
}

} // verus!

verus! {

/// The values named in a concatenation are those of each part in turn.
pub proof fn lemma_values_named_concat(a: FieldsView, b: FieldsView, name: Seq<char>)
    ensures
        values_named(a + b, name) == values_named(a, name) + values_named(b, name),
    decreases b.len(),
{
    if b.len() == 0 {
        assert(a + b =~= a);
        assert(values_named(a, name) + values_named(b, name) =~= values_named(a, name));
    } else {
        assert((a + b).drop_last() =~= a + b.drop_last());
        lemma_values_named_concat(a, b.drop_last(), name);
        assert(values_named(a + b, name) =~= values_named(a, name) + values_named(b, name));
    }
}

/// Removing a name leaves no field of that name and every other name's
/// values as they were.
pub proof fn lemma_without_name(f: FieldsView, name: Seq<char>, other: Seq<char>)
    ensures
        values_named(without_name(f, name), name) == Seq::<Seq<u8>>::empty(),
        other != name ==> values_named(without_name(f, name), other) == values_named(f, other),
    decreases f.len(),
{
    if f.len() > 0 {
        lemma_without_name(f.drop_last(), name, other);
        let last = f.last();
        let w = without_name(f.drop_last(), name);
        if last.0 == name {
            assert(without_name(f, name) =~= w);
            if other != name {
                assert(values_named(f, other) =~= values_named(f.drop_last(), other));
            }
        } else {
            let tail: FieldsView = seq![last];
            assert(without_name(f, name) =~= w + tail);
            assert(tail.drop_last() =~= Seq::<(Seq<char>, Seq<u8>)>::empty());
            lemma_values_named_concat(w, tail, name);
            lemma_values_named_concat(w, tail, other);
            assert(values_named(tail.drop_last(), name) =~= Seq::<Seq<u8>>::empty());
            assert(values_named(tail.drop_last(), other) =~= Seq::<Seq<u8>>::empty());
            assert(values_named(tail, name) =~= Seq::<Seq<u8>>::empty());
            assert(values_named(tail, other) =~= (if last.0 == other {
                seq![last.1]
            } else {
                Seq::<Seq<u8>>::empty()
            }));
            assert(values_named(without_name(f, name), name) =~= Seq::<Seq<u8>>::empty());
            if other != name {
                assert(values_named(without_name(f, name), other) =~= values_named(f, other));
            }
        }
    }
}

/// The fields built from a list of values under one name give back those
/// values under that name, and nothing under any other.
pub proof fn lemma_named(name: Seq<char>, values: Seq<Seq<u8>>, other: Seq<char>)
    ensures
        values_named(named(name, values), name) == values,
        other != name ==> values_named(named(name, values), other) == Seq::<Seq<u8>>::empty(),
    decreases values.len(),
{
    if values.len() > 0 {
        lemma_named(name, values.drop_last(), other);
        assert(named(name, values).drop_last() =~= named(name, values.drop_last()));
        assert(values_named(named(name, values), name) =~= values);
        if other != name {
            assert(values_named(named(name, values), other) =~= Seq::<Seq<u8>>::empty());
        }
    } else {
        assert(named(name, values) =~= Seq::<(Seq<char>, Seq<u8>)>::empty());
    }
}

/// Reading a header after setting it gives exactly the values set, and
/// setting one name leaves every other name's values unchanged.
pub proof fn lemma_get_after_set(
    f: FieldsView,
    name: Seq<char>,
    values: Seq<Seq<u8>>,
    other: Seq<char>,
)
    ensures
        values_named(without_name(f, name) + named(name, values), name) == values,
        other != name ==> values_named(without_name(f, name) + named(name, values), other)
            == values_named(f, other),
{
    lemma_values_named_concat(without_name(f, name), named(name, values), name);
    lemma_values_named_concat(without_name(f, name), named(name, values), other);
    lemma_without_name(f, name, other);
    lemma_named(name, values, other);
    assert(Seq::<Seq<u8>>::empty() + values =~= values);
    if other != name {
        assert(values_named(f, other) + Seq::<Seq<u8>>::empty() =~= values_named(f, other));
    }
}

/// Appending a value to a header adds it after the values already there.
pub proof fn lemma_get_after_append(f: FieldsView, name: Seq<char>, value: Seq<u8>)
    ensures
        values_named(f.push((name, value)), name) == values_named(f, name).push(value),
{
    assert(f.push((name, value)).drop_last() =~= f);
    assert(values_named(f.push((name, value)), name) =~= values_named(f, name).push(value));
}

/// After a delete, the header is gone.
pub proof fn lemma_delete_then_absent(f: FieldsView, name: Seq<char>)
    ensures
        values_named(without_name(f, name), name).len() == 0,
{
    lemma_without_name(f, name, name);
}

/// A request is sent to `scheme://authority` followed by its path: a path
/// that already starts with `/` is sent as it is, a path that lacks it gets
/// one `/` in front, and no path is sent as `/`.
pub proof fn lemma_url_path(r: RequestView)
    ensures
        ({
            let base = r.scheme + seq![':', '/', '/'] + (match r.authority {
                Some(a) => a,
                None => Seq::<char>::empty(),
            });
            match r.path_with_query {
                Some(p) => if p.len() > 0 && p[0] == '/' {
                    url_of(r) == base + p
                } else {
                    url_of(r) == base + seq!['/'] + p
                },
                None => url_of(r) == base + seq!['/'],
            }
        }),
{
    reveal_strlit("://");
    assert("://"@ =~= seq![':', '/', '/']);
    let base = r.scheme + seq![':', '/', '/'] + (match r.authority {
        Some(a) => a,
        None => Seq::<char>::empty(),
    });
    match r.path_with_query {
        Some(p) => {
            assert(base + (seq!['/'] + p) =~= base + seq!['/'] + p);
        },
        None => {},
    }
}

/// The URL of a request never holds `//` right after its authority when the
/// path starts with `/`: exactly one `/` separates authority and path.
pub proof fn lemma_url_single_slash(r: RequestView, p: Seq<char>)
    requires
        r.path_with_query == Some(p),
        p.len() > 0,
        p[0] == '/',
    ensures
        url_of(r).len() == r.scheme.len() + 3 + (match r.authority {
            Some(a) => a.len(),
            None => 0,
        }) + p.len(),
{
    lemma_url_path(r);
}

/// Setting a request's method and reading it back gives that method, for
/// every method the host names (GET, HEAD, POST, PUT, DELETE, OPTIONS,
/// PATCH): the stored text reads as that method and no other.
pub proof fn lemma_method_round_trip(m: Method, x: Method)
    requires
        m is Get || m is Head || m is Post || m is Put || m is Delete || m is Options || m is Patch,
    ensures
        method_reads_as(method_text(m), x) <==> x == m,
{
    lemma_named_method_texts();
}

/// The texts of the named methods, told apart by length and first letter.
proof fn lemma_named_method_texts()
    ensures
        "GET"@.len() == 3 && "GET"@[0] == 'G',
        "PUT"@.len() == 3 && "PUT"@[0] == 'P',
        "POST"@.len() == 4 && "POST"@[0] == 'P',
        "HEAD"@.len() == 4 && "HEAD"@[0] == 'H',
        "PATCH"@.len() == 5,
        "DELETE"@.len() == 6,
        "OPTIONS"@.len() == 7,
        "GET"@ != "PUT"@ && "POST"@ != "HEAD"@,
{
    reveal_strlit("GET");
    reveal_strlit("POST");
    reveal_strlit("PUT");
    reveal_strlit("DELETE");
    reveal_strlit("HEAD");
    reveal_strlit("OPTIONS");
    reveal_strlit("PATCH");
    assert("GET"@[0] != "PUT"@[0]);
    assert("POST"@[0] != "HEAD"@[0]);
}

/// Distinct named methods are stored under distinct texts, so no named
/// method reads back as another.
pub proof fn lemma_method_texts_distinct(m: Method, n: Method)
    requires
        m is Get || m is Head || m is Post || m is Put || m is Delete || m is Options || m is Patch,
        n is Get || n is Head || n is Post || n is Put || n is Delete || n is Options || n is Patch,
        m != n,
    ensures
        method_text(m) != method_text(n),
        !method_reads_as(method_text(m), n),
{
    lemma_method_round_trip(m, n);
    lemma_method_round_trip(n, n);
}

/// Setting a request's scheme to HTTP or HTTPS and reading it back gives
/// that scheme, the two are stored under different texts, and a request
/// given no scheme is stored as HTTPS.
pub proof fn lemma_scheme_round_trip(sc: Scheme, x: Scheme)
    requires
        sc is HTTP || sc is HTTPS,
    ensures
        scheme_reads_as(scheme_text(Some(sc)), x) <==> x == sc,
        scheme_text(Some(Scheme::HTTP)) != scheme_text(Some(Scheme::HTTPS)),
        scheme_text(None) == scheme_text(Some(Scheme::HTTPS)),
{
    reveal_strlit("http");
    reveal_strlit("https");
    assert("http"@.len() != "https"@.len());
}

} // verus!
