//! The decisions of sending an outgoing request through the resource
//! interface: the method the client is given, the URL it is sent to, and
//! the body and headers a received response is handed back with.
use crate::buffer::BufferView;
use crate::headers::{header_map_entries, Headers};
use crate::http_store::{is_method_token, method_from_bytes_ok, method_text};
use crate::io_stream::Stream;
use crate::wasi_types::{HttpErrorCode, Method, Scheme};
use reqwest::header::HeaderMap;
use vstd::prelude::*;

verus! {

/// The text of a scheme in a URL.
pub open spec fn scheme_name(s: Scheme) -> Seq<char> {
    match s {
        Scheme::HTTP => "http"@,
        Scheme::HTTPS => "https"@,
        Scheme::Other(t) => t@,
    }
}

/// The URL a request is sent to: `{scheme}://{authority}/{path}`, where
/// no scheme is HTTP and a missing authority or path is empty.
pub open spec fn request_url(
    scheme: Option<Scheme>,
    authority: Option<Seq<char>>,
    path_with_query: Option<Seq<char>>,
) -> Seq<char> {
    let s = match scheme {
        Some(s) => scheme_name(s),
        None => "http"@,
    };
    let a = match authority {
        Some(a) => a,
        None => Seq::empty(),
    };
    let p = match path_with_query {
        Some(p) => p,
        None => Seq::empty(),
    };
    s + "://"@ + a + "/"@ + p
}

/// The method is one the client can send: a named one, or another whose
/// text is a valid method token.
pub open spec fn sendable_method(m: Method) -> bool {
    m matches Method::Other(t) ==> is_method_token(t@)
}

/// The text of a scheme.
pub fn scheme_string(s: &Scheme) -> (r: String)
    ensures
        r@ == scheme_name(*s),
{
    match s {
        Scheme::HTTP => "http".to_owned(),
        Scheme::HTTPS => "https".to_owned(),
        Scheme::Other(t) => t.clone(),
    }
}

/// The URL of an outgoing request.
pub fn outgoing_url(
    scheme: &Option<Scheme>,
    authority: &Option<String>,
    path_with_query: &Option<String>,
) -> (r: String)
    ensures
        r@ == request_url(
            *scheme,
            crate::http_store::opt_str_view(*authority),
            crate::http_store::opt_str_view(*path_with_query),
        ),
{
    let mut url = match scheme {
        Some(s) => scheme_string(s),
        None => "http".to_owned(),
    };
    url.append("://");
    match authority {
        Some(a) => url.append(a.as_str()),
        None => {},
    }
    url.append("/");
    match path_with_query {
        Some(p) => url.append(p.as_str()),
        None => {},
    }
    proof {
        let a = crate::http_store::opt_str_view(*authority);
        let p = crate::http_store::opt_str_view(*path_with_query);
        assert(a is None ==> Seq::<char>::empty() + "/"@ =~= "/"@);
    }
    url
}

/// The method the client is given for a request: its name, or an invalid
/// method error for another method that is not a valid token.
pub fn outgoing_method(m: &Method) -> (r: Result<String, HttpErrorCode>)
    ensures
        sendable_method(*m) ==> (r matches Ok(t) && t@ == method_text(*m)),
        !sendable_method(*m) ==> r matches Err(HttpErrorCode::HTTPRequestMethodInvalid),
{
    match m {
        Method::Get => Ok("GET".to_owned()),
        Method::Post => Ok("POST".to_owned()),
        Method::Put => Ok("PUT".to_owned()),
        Method::Delete => Ok("DELETE".to_owned()),
        Method::Head => Ok("HEAD".to_owned()),
        Method::Options => Ok("OPTIONS".to_owned()),
        Method::Connect => Ok("CONNECT".to_owned()),
        Method::Trace => Ok("TRACE".to_owned()),
        Method::Patch => Ok("PATCH".to_owned()),
        Method::Other(t) => {
            if method_from_bytes_ok(t.as_str()) {
                Ok(t.clone())
            } else {
                Err(HttpErrorCode::HTTPRequestMethodInvalid)
            }
        },
    }
}

/// The body stream of a received response: all its bytes, then closed.
pub fn response_body(bytes: &[u8]) -> (s: Stream)
    ensures
        s@ == (BufferView {
            pending: bytes@,
            closed: true,
            total_written: bytes@.len(),
            total_read: 0,
        }),
{
    let mut stream = Stream::new();
    let n: usize = bytes.len();
    assert(n == bytes@.len());
    let _ = stream.write(bytes);
    let _ = stream.close();
    stream
}

/// The headers of a received response, which the guest may not change.
pub fn response_headers(map: HeaderMap) -> (h: Headers)
    ensures
        h@.entries == header_map_entries(map),
        h@.immutable,
{
    let mut headers = Headers::from(map);
    headers.make_immutable();
    headers
}

/// Each scheme is written under its own name: HTTP and HTTPS are told
/// apart, the URL of a request starts with its scheme's name and `://`,
/// and a request with no scheme goes out as HTTP.
pub proof fn lemma_scheme_names(a: Option<Seq<char>>, p: Option<Seq<char>>)
    ensures
        scheme_name(Scheme::HTTP) != scheme_name(Scheme::HTTPS),
        scheme_name(Scheme::HTTP).len() == 4,
        scheme_name(Scheme::HTTPS).len() == 5,
        scheme_name(Scheme::HTTPS).take(4) == scheme_name(Scheme::HTTP),
        request_url(Some(Scheme::HTTP), a, p).take(7) == seq!['h', 't', 't', 'p', ':', '/', '/'],
        request_url(Some(Scheme::HTTPS), a, p).take(8) == seq![
            'h',
            't',
            't',
            'p',
            's',
            ':',
            '/',
            '/',
        ],
        request_url(None, a, p) == request_url(Some(Scheme::HTTP), a, p),
{
    reveal_strlit("http");
    reveal_strlit("https");
    reveal_strlit("://");
    reveal_strlit("/");
    assert(scheme_name(Scheme::HTTP) != scheme_name(Scheme::HTTPS)) by {
        assert(scheme_name(Scheme::HTTP).len() != scheme_name(Scheme::HTTPS).len());
    }
    let rest_a = match a {
        Some(a) => a,
        None => Seq::<char>::empty(),
    };
    let rest_p = match p {
        Some(p) => p,
        None => Seq::<char>::empty(),
    };
    let tail = "://"@ + rest_a + "/"@ + rest_p;
    assert(request_url(Some(Scheme::HTTP), a, p) =~= "http"@ + tail);
    assert(("http"@ + tail).take(7) =~= seq!['h', 't', 't', 'p', ':', '/', '/']);
    assert(request_url(Some(Scheme::HTTPS), a, p) =~= "https"@ + tail);
    assert(("https"@ + tail).take(8) =~= seq!['h', 't', 't', 'p', 's', ':', '/', '/']);
    assert(scheme_name(Scheme::HTTPS).take(4) =~= scheme_name(Scheme::HTTP));
}

} // verus!
