use hyperlight_sandbox::headers::{HeaderError, Headers, WasiHeaderError};
use hyperlight_sandbox::host_functions::{
    hostfunc_type, ParameterType, ReturnType, SignatureError, ValType,
};
use hyperlight_sandbox::http_store::{HttpStore, IncomingReply, FIRST_HTTP_HANDLE};
use hyperlight_sandbox::outgoing::{
    outgoing_method, outgoing_url, response_body, response_headers, scheme_string,
};
use hyperlight_sandbox::wasi_types::{HttpErrorCode, Method, Scheme};

fn allowed(list: &[&str]) -> Vec<String> {
    list.iter().map(|s| s.to_string()).collect()
}

#[test]
fn store_handles_start_high_and_count_up() {
    let mut s = HttpStore::new();
    assert_eq!(s.alloc_handle(), FIRST_HTTP_HANDLE);
    assert_eq!(s.alloc_handle(), FIRST_HTTP_HANDLE + 1);
    assert_eq!(FIRST_HTTP_HANDLE, 5000);
}

#[test]
fn fields_set_get_append_delete() {
    let mut s = HttpStore::new();
    let h = s.fields_new();
    assert!(!s.fields_has(h, "accept"));
    assert!(s.fields_append(h, "accept", b"text/html".to_vec()).is_ok());
    assert!(s.fields_append(h, "x-id", b"1".to_vec()).is_ok());
    assert!(s.fields_append(h, "accept", b"text/plain".to_vec()).is_ok());
    assert_eq!(s.fields_get(h, "accept"), vec![b"text/html".to_vec(), b"text/plain".to_vec()]);
    assert!(s.fields_set(h, "accept", vec![b"*/*".to_vec()]).is_ok());
    assert_eq!(s.fields_get(h, "accept"), vec![b"*/*".to_vec()]);
    assert_eq!(
        s.fields_entries(h),
        vec![("x-id".to_string(), b"1".to_vec()), ("accept".to_string(), b"*/*".to_vec())]
    );
    assert!(s.fields_delete(h, "accept").is_ok());
    assert!(!s.fields_has(h, "accept"));
    assert!(s.fields_has(h, "x-id"));
    // unknown handles read as empty
    assert!(s.fields_get(9999, "x-id").is_empty());
}

#[test]
fn fields_from_list_and_clone() {
    let mut s = HttpStore::new();
    let list = vec![("a".to_string(), b"1".to_vec()), ("b".to_string(), b"2".to_vec())];
    let h = s.fields_from_list(list.clone()).unwrap();
    let c = s.fields_clone(h);
    assert_ne!(h, c);
    assert_eq!(s.fields_entries(c), list);
    s.fields_append(c, "a", b"3".to_vec()).unwrap();
    assert_eq!(s.fields_get(h, "a"), vec![b"1".to_vec()]);
    assert_eq!(s.fields_get(c, "a"), vec![b"1".to_vec(), b"3".to_vec()]);
}

#[test]
fn request_defaults_and_setters() {
    let mut s = HttpStore::new();
    let hdrs = s.fields_new();
    let r = s.request_new(hdrs);
    assert!(matches!(s.request_method(r), Method::Get));
    assert!(matches!(s.request_scheme(r), Some(Scheme::HTTPS)));
    assert_eq!(s.request_authority(r), None);
    assert_eq!(s.request_path_with_query(r), None);
    s.request_set_method(r, Method::Post).unwrap();
    assert!(matches!(s.request_method(r), Method::Post));
    // CONNECT is stored by name and reads back as another method
    s.request_set_method(r, Method::Connect).unwrap();
    assert!(matches!(s.request_method(r), Method::Other(m) if m == "CONNECT"));
    s.request_set_scheme(r, Some(Scheme::HTTP)).unwrap();
    assert!(matches!(s.request_scheme(r), Some(Scheme::HTTP)));
    s.request_set_scheme(r, None).unwrap();
    assert!(matches!(s.request_scheme(r), Some(Scheme::HTTPS)));
    s.request_set_authority(r, Some("example.com".to_string())).unwrap();
    assert_eq!(s.request_authority(r), Some("example.com".to_string()));
    s.request_set_path_with_query(r, Some("/a?b=c".to_string())).unwrap();
    assert_eq!(s.request_path_with_query(r), Some("/a?b=c".to_string()));
}

#[test]
fn options_timeouts_round_trip() {
    let mut s = HttpStore::new();
    let o = s.options_new();
    assert_eq!(s.connect_timeout(o), None);
    s.set_connect_timeout(o, Some(5)).unwrap();
    s.set_first_byte_timeout(o, Some(6)).unwrap();
    s.set_between_bytes_timeout(o, Some(7)).unwrap();
    assert_eq!(s.connect_timeout(o), Some(5));
    assert_eq!(s.first_byte_timeout(o), Some(6));
    assert_eq!(s.between_bytes_timeout(o), Some(7));
    assert_eq!(s.connect_timeout(o + 100), None);
}

#[test]
fn prepare_unknown_request_is_an_internal_error() {
    let mut s = HttpStore::new();
    match s.prepare_request(4242, &allowed(&["example.com"])) {
        Err(HttpErrorCode::InternalError(Some(m))) => assert_eq!(m, "unknown request handle"),
        _ => panic!("expected an internal error"),
    }
}

#[test]
fn prepare_denies_a_domain_not_allowed() {
    let mut s = HttpStore::new();
    let hdrs = s.fields_new();
    let r = s.request_new(hdrs);
    s.request_set_authority(r, Some("evil.com:443".to_string())).unwrap();
    assert!(matches!(
        s.prepare_request(r, &allowed(&["example.com"])),
        Err(HttpErrorCode::HTTPRequestDenied)
    ));
    // the request is gone afterwards
    assert!(matches!(
        s.prepare_request(r, &allowed(&["evil.com"])),
        Err(HttpErrorCode::InternalError(_))
    ));
}

#[test]
fn prepare_refuses_an_invalid_method() {
    let mut s = HttpStore::new();
    let hdrs = s.fields_new();
    let r = s.request_new(hdrs);
    s.request_set_authority(r, Some("example.com".to_string())).unwrap();
    s.request_set_method(r, Method::Other("FOO BAR".to_string())).unwrap();
    assert!(matches!(
        s.prepare_request(r, &allowed(&["example.com"])),
        Err(HttpErrorCode::HTTPRequestMethodInvalid)
    ));
}

#[test]
fn prepare_builds_the_call_and_complete_fills_the_future() {
    let mut s = HttpStore::new();
    let hdrs = s.fields_new();
    s.fields_append(hdrs, "accept", b"*/*".to_vec()).unwrap();
    let r = s.request_new(hdrs);
    s.request_set_authority(r, Some("example.com:8080".to_string())).unwrap();
    s.request_set_path_with_query(r, Some("path?q=1".to_string())).unwrap();
    s.request_set_method(r, Method::Other("PROPFIND".to_string())).unwrap();
    let body = s.request_body(r).unwrap();
    let call = s.prepare_request(r, &allowed(&["example.com"])).ok().unwrap();
    assert_eq!(call.method, "PROPFIND");
    assert_eq!(call.url, "https://example.com:8080/path?q=1");
    assert_eq!(call.headers, vec![("accept".to_string(), b"*/*".to_vec())]);
    assert!(call.body.is_empty());
    assert!(body < call.future);
    // nothing arrived yet
    assert!(s.future_response_get(call.future).is_none());
    let reply = IncomingReply {
        status: 201,
        headers: vec![("server".to_string(), b"x".to_vec())],
        body: b"done".to_vec(),
    };
    s.complete_request(call.future, Ok(reply));
    let resp = match s.future_response_get(call.future) {
        Some(Ok(Ok(h))) => h,
        _ => panic!("expected a response"),
    };
    assert_eq!(s.response_status(resp), 201);
    let rh = s.response_headers(resp);
    assert_eq!(s.fields_get(rh, "server"), vec![b"x".to_vec()]);
    assert!(s.response_consume(resp).is_ok());
}

#[test]
fn a_failed_send_is_reported_as_an_internal_error() {
    let mut s = HttpStore::new();
    let hdrs = s.fields_new();
    let r = s.request_new(hdrs);
    s.request_set_authority(r, Some("example.com".to_string())).unwrap();
    let call = s.prepare_request(r, &allowed(&["example.com"])).ok().unwrap();
    assert_eq!(call.url, "https://example.com/");
    assert_eq!(call.method, "GET");
    s.complete_request(call.future, Err("connection refused".to_string()));
    match s.future_response_get(call.future) {
        Some(Ok(Err(HttpErrorCode::InternalError(Some(m))))) => {
            assert_eq!(m, "connection refused")
        }
        _ => panic!("expected an internal error"),
    }
}

#[test]
fn headers_are_case_insensitive_and_validated() {
    let mut h = Headers::default();
    assert!(h.is_empty());
    assert!(h.append("Content-Type", b"text/plain").is_ok());
    assert!(h.append("content-type", b"charset=utf-8").is_ok());
    assert!(h.has("CONTENT-TYPE"));
    assert_eq!(
        h.get("Content-Type").ok(),
        Some(vec![b"text/plain".to_vec(), b"charset=utf-8".to_vec()])
    );
    assert_eq!(h.get("bad name").err(), Some(HeaderError::InvalidHeader));
    assert!(!h.has("bad name"));
    assert_eq!(h.append("x", b"line\nbreak").err(), Some(HeaderError::InvalidHeader));
    assert_eq!(h.append("", b"v").err(), Some(HeaderError::InvalidHeader));
    assert!(!h.is_empty());
}

#[test]
fn headers_set_replaces_and_delete_removes() {
    let mut h = Headers::from_list(vec![
        ("A".to_string(), b"1".to_vec()),
        ("b".to_string(), b"2".to_vec()),
        ("a".to_string(), b"3".to_vec()),
    ])
    .ok()
    .unwrap();
    assert_eq!(h.get("a").ok(), Some(vec![b"1".to_vec(), b"3".to_vec()]));
    assert!(h.set("a", vec![b"9".to_vec(), b"8".to_vec()]).is_ok());
    assert_eq!(h.get("a").ok(), Some(vec![b"9".to_vec(), b"8".to_vec()]));
    assert_eq!(h.set("a", vec![b"\x7f".to_vec()]).err(), Some(HeaderError::InvalidHeader));
    assert_eq!(h.get("a").ok(), Some(vec![b"9".to_vec(), b"8".to_vec()]));
    assert!(h.set("a", Vec::new()).is_ok());
    assert!(!h.has("a"));
    assert!(h.delete("B").is_ok());
    assert!(h.is_empty());
    let mut entries = Headers::from_list(vec![("k".to_string(), b"v".to_vec())])
        .ok()
        .unwrap()
        .entries();
    entries.sort();
    assert_eq!(entries, vec![("k".to_string(), b"v".to_vec())]);
}

#[test]
fn headers_from_list_refuses_bad_entries() {
    let r = Headers::from_list(vec![
        ("ok".to_string(), b"1".to_vec()),
        ("no good".to_string(), b"2".to_vec()),
    ]);
    assert_eq!(r.err(), Some(HeaderError::InvalidHeader));
}

#[test]
fn immutable_headers_refuse_every_change() {
    let mut map = reqwest::header::HeaderMap::new();
    map.append("server", reqwest::header::HeaderValue::from_static("demo"));
    let mut h = response_headers(map);
    assert!(h.immutable);
    assert_eq!(h.append("a", b"1").err(), Some(HeaderError::Immutable));
    assert_eq!(h.set("server", vec![]).err(), Some(HeaderError::Immutable));
    assert_eq!(h.delete("server").err(), Some(HeaderError::Immutable));
    assert_eq!(h.get("Server").ok(), Some(vec![b"demo".to_vec()]));
    let copy = h.duplicate();
    assert!(copy.immutable);
    assert_eq!(copy.get("server").ok(), Some(vec![b"demo".to_vec()]));
}

#[test]
fn outgoing_url_and_method() {
    assert_eq!(outgoing_url(&None, &None, &None), "http:///");
    assert_eq!(
        outgoing_url(
            &Some(Scheme::HTTPS),
            &Some("example.com".to_string()),
            &Some("a/b?c".to_string())
        ),
        "https://example.com/a/b?c"
    );
    assert_eq!(scheme_string(&Scheme::Other("ftp".to_string())), "ftp");
    assert_eq!(outgoing_method(&Method::Delete).ok(), Some("DELETE".to_string()));
    assert_eq!(
        outgoing_method(&Method::Other("PURGE".to_string())).ok(),
        Some("PURGE".to_string())
    );
    assert!(matches!(
        outgoing_method(&Method::Other("BAD METHOD".to_string())),
        Err(HttpErrorCode::HTTPRequestMethodInvalid)
    ));
}

#[test]
fn response_body_holds_the_bytes_then_ends() {
    let mut s = response_body(b"payload");
    assert!(s.check_write().is_err());
    assert_eq!(s.read_all().ok(), Some(b"payload".to_vec()));
    assert!(s.read(1).is_err());
}

#[test]
fn host_function_signature() {
    let sig = hostfunc_type(
        &Some(vec![ParameterType::String, ParameterType::VecBytes, ParameterType::Int]),
        ReturnType::VecBytes,
    )
    .ok()
    .unwrap();
    assert_eq!(sig.params, vec![ValType::I32, ValType::I32, ValType::I32]);
    assert_eq!(sig.results, vec![ValType::I64]);
    let sig = hostfunc_type(&None, ReturnType::Void).ok().unwrap();
    assert!(sig.params.is_empty() && sig.results.is_empty());
    let sig = hostfunc_type(
        &Some(vec![ParameterType::Long, ParameterType::Float, ParameterType::Double]),
        ReturnType::Double,
    )
    .ok()
    .unwrap();
    assert_eq!(sig.params, vec![ValType::I64, ValType::F32, ValType::F64]);
    assert_eq!(sig.results, vec![ValType::F64]);
}

#[test]
fn host_function_vector_needs_its_length() {
    let err = hostfunc_type(
        &Some(vec![ParameterType::VecBytes, ParameterType::Long]),
        ReturnType::Int,
    )
    .err()
    .unwrap();
    assert_eq!(err, SignatureError::VectorLengthMissing);
    assert_eq!(err.message(), "Host function vector parameter missing length");
    // every later parameter must be an Int too
    assert!(hostfunc_type(
        &Some(vec![ParameterType::VecBytes, ParameterType::Int, ParameterType::Bool]),
        ReturnType::Int,
    )
    .is_err());
}

#[test]
fn header_errors_map_to_wasi_errors() {
    assert_eq!(WasiHeaderError::from(HeaderError::Immutable), WasiHeaderError::Immutable);
    assert_eq!(WasiHeaderError::from(HeaderError::InvalidHeader), WasiHeaderError::InvalidSyntax);
}

#[test]
fn next_handle_tracks_allocation() {
    let mut s = HttpStore::new();
    assert_eq!(s.next_handle(), FIRST_HTTP_HANDLE);
    let h = s.fields_new();
    assert_eq!(h, FIRST_HTTP_HANDLE);
    assert_eq!(s.next_handle(), FIRST_HTTP_HANDLE + 1);
}

#[test]
fn headers_from_a_long_list_under_one_name() {
    let list: Vec<(String, Vec<u8>)> =
        (0..7000).map(|i| ("x-many".to_string(), i.to_string().into_bytes())).collect();
    let h = Headers::from_list(list).ok().unwrap();
    let values = h.get("x-many").ok().unwrap();
    assert_eq!(values.len(), 7000);
    assert_eq!(values[6999], b"6999".to_vec());
}
