use hyper::header::{HeaderMap, HeaderName, HeaderValue};
use stk::http::{
    append_via, connect_target, forward_destination, is_room, prepare_forward_headers,
    prepare_response_headers, remove_hop_by_hop_headers, HeaderOutcome, HttpProxyFailure,
    RequestHead, FEW_HEADERS,
};
use stk::outbound::TargetAddr;

fn head(scheme: Option<&str>, authority: Option<&str>, path: Option<&str>) -> RequestHead {
    RequestHead {
        scheme: scheme.map(str::to_string),
        authority: authority.map(str::to_string),
        path_and_query: path.map(str::to_string),
        uri: authority.unwrap_or("/").to_string(),
        host: None,
    }
}

fn headers(list: &[(&'static str, &'static str)]) -> HeaderMap<HeaderValue> {
    let mut map = HeaderMap::new();
    for (name, value) in list {
        map.append(*name, HeaderValue::from_static(value));
    }
    map
}

#[test]
fn connect_requests_name_their_target() {
    let target = connect_target(&head(None, Some("example.com:8443"), None)).unwrap();
    assert_eq!(target.text(), "example.com:8443");
    let target = connect_target(&head(None, Some("[::1]"), None)).unwrap();
    assert_eq!(target.text(), "[::1]:443");
    let failure = connect_target(&head(None, Some("example.com:0"), None)).unwrap_err();
    assert_eq!(failure.status, 400);
    assert_eq!(failure.error, "target port must be greater than zero");
    assert_eq!(failure.body(), "Bad Request\n");
}

#[test]
fn forwarded_requests_go_to_their_authority() {
    let destination = forward_destination(&head(
        Some("http"),
        Some("example.com"),
        Some("/path?query"),
    ))
    .unwrap();
    assert_eq!(destination.authority, "example.com");
    assert_eq!(
        destination.target,
        TargetAddr::DomainPort {
            domain: "example.com".to_string(),
            port: 80
        }
    );
    assert_eq!(destination.origin_form, "/path?query");

    let mut by_host = head(None, None, Some("/"));
    by_host.host = Some(b"other.example:81".to_vec());
    assert_eq!(
        forward_destination(&by_host).unwrap().target.text(),
        "other.example:81"
    );
}

#[test]
fn requests_without_a_place_are_refused() {
    let failure =
        forward_destination(&head(Some("https"), Some("example.com"), Some("/"))).unwrap_err();
    assert_eq!(failure.status, 400);
    assert_eq!(
        failure.error,
        "forward proxy URI scheme must be http; use CONNECT for https"
    );
    let failure = forward_destination(&head(None, None, Some("/"))).unwrap_err();
    assert_eq!(failure.error, "HTTP request is missing Host");
    let mut broken = head(None, None, Some("/"));
    broken.host = Some(vec![0xff]);
    assert_eq!(forward_destination(&broken).unwrap_err().status, 400);
    let mut spaced = head(None, None, Some("/"));
    spaced.host = Some(b"a b".to_vec());
    assert_eq!(forward_destination(&spaced).unwrap_err().status, 400);
    let failure = HttpProxyFailure::bad_gateway("down".to_string());
    assert_eq!(failure.status, 502);
    assert_eq!(failure.body(), "Bad Gateway\n");
}

#[test]
fn a_path_that_is_no_uri_is_refused() {
    let mut odd = head(Some("http"), Some("example.com"), None);
    odd.path_and_query = Some("/a b".to_string());
    assert_eq!(forward_destination(&odd).unwrap_err().status, 400);
}

#[test]
fn hop_by_hop_headers_are_removed() {
    let mut map = headers(&[
        ("connection", "x-private, keep-alive"),
        ("x-private", "1"),
        ("keep-alive", "timeout=5"),
        ("proxy-authorization", "Basic SECRET-REDACTED"),
        ("proxy-connection", "keep-alive"),
        ("te", "trailers"),
        ("accept", "*/*"),
    ]);
    remove_hop_by_hop_headers(&mut map);
    assert_eq!(map.len(), 1);
    assert_eq!(map.get("accept").unwrap(), "*/*");
}

#[test]
fn passed_requests_carry_via_and_host() {
    let mut map = headers(&[("host", "old"), ("via", "1.0 other"), ("accept", "*/*")]);
    assert_eq!(
        prepare_forward_headers(&mut map, "example.com:81"),
        HeaderOutcome::Ready
    );
    assert_eq!(map.get("host").unwrap(), "example.com:81");
    let via: Vec<_> = map.get_all("via").iter().collect();
    assert_eq!(via, ["1.0 other", "1.1 stk"]);

    let mut map = headers(&[("upgrade", "x")]);
    assert!(prepare_response_headers(&mut map));
    assert!(map.get("upgrade").is_none());
    assert_eq!(map.get("via").unwrap(), "1.1 stk");
    assert!(append_via(&mut map));
    assert_eq!(map.get_all("via").iter().count(), 2);
}

#[test]
fn an_authority_that_is_no_header_is_refused() {
    let mut map = headers(&[]);
    match prepare_forward_headers(&mut map, "bad\nhost") {
        HeaderOutcome::Failed(failure) => {
            assert_eq!(failure.status, 400);
            assert_eq!(failure.error, "failed to parse header value");
        }
        other => panic!("{other:?}"),
    }
}

fn many_headers(count: usize) -> HeaderMap<HeaderValue> {
    let mut map = HeaderMap::new();
    for i in 0..count {
        let name = HeaderName::from_bytes(format!("x-{i}").as_bytes()).unwrap();
        map.append(name.clone(), HeaderValue::from_static("a"));
        map.append(name, HeaderValue::from_static("b"));
    }
    map
}

#[test]
fn names_of_headers_are_counted() {
    assert!(is_room(&HeaderMap::new()));
    assert!(is_room(&many_headers(FEW_HEADERS - 1)));
    assert!(!is_room(&many_headers(FEW_HEADERS)));
}

#[test]
fn there_is_room_among_a_few_thousand_headers() {
    let mut map = many_headers(FEW_HEADERS - 2);
    assert_eq!(
        prepare_forward_headers(&mut map, "example.com"),
        HeaderOutcome::Ready
    );
    assert_eq!(map.keys_len(), FEW_HEADERS);
    let mut map = many_headers(FEW_HEADERS - 1);
    assert!(prepare_response_headers(&mut map));
}
