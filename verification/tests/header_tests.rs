use typechain::binary::FromBinary;
use typechain::binary::IntoBinary;
use typechain::body::UnwrapBody;
use typechain::body::WrapBody;
use typechain::header::HeaderMap;
use typechain::header::ReadHeader;
use typechain::header::WriteHeader;
use typechain::message::Request;
use typechain::message::Response;
use typechain::text::split_trimmed;
use typechain::types_chain::UnwrapType;
use typechain::types_chain::WrapType;

#[test]
fn test_is_header() {
    assert_eq!(
        Request::new(()).is_header("Accept", "application/json"),
        false
    );

    let mut r = Request::new(());
    r.set_header("Accept", "text/html".to_string());
    assert_eq!(r.is_header("Accept", "application/json"), false);

    let mut r = Request::new(());
    r.set_header("Accept", "application/json".to_string());
    assert_eq!(r.is_header("Accept", "application/json"), true);
}

#[test]
fn test_get_header_str() {
    assert_eq!(Request::new(()).get_header_str("Accept"), None);

    let mut r = Request::new(());
    r.set_header("Accept", "text/html".to_string());
    assert_eq!(r.get_header_str("Accept"), Some("text/html"));
}

#[test]
fn test_get_header_bin() {
    assert_eq!(Request::new(()).get_header_bin("Accept"), None);

    let mut r = Request::new(());
    r.set_header("Accept", "text/html".to_string());
    assert_eq!(r.get_header_bin("Accept"), Some(b"text/html".to_vec()));
}

#[test]
fn test_header_map_replaces_value() {
    let mut hm = HeaderMap::new();
    assert!(hm.get("Accept").is_none());
    hm.set("Accept", "text/html".to_string());
    hm.set("Host", "example".to_string());
    hm.set("Accept", "application/json".to_string());
    assert_eq!(hm.get("Accept").map(|v| v.as_str()), Some("application/json"));
    assert_eq!(hm.get("Host").map(|v| v.as_str()), Some("example"));
    assert!(hm.is("Host", "example"));
    assert!(!hm.is("Host", "other"));
}

#[test]
fn test_unwrap_type() {
    let mut r = Request::new(());
    r.set_header("Content-Type", "application/vnd.x+json".to_string());
    assert_eq!(r.unwrap_type("json").unwrap(), "application/vnd.x");
    assert_eq!(r.unwrap_type("base64"), None);
    assert_eq!(Response::new(()).unwrap_type("json"), None);
}

#[test]
fn test_wrap_type() {
    let mut r = Request::new(());
    r.set_header("Content-Type", "application/vnd.x+json".to_string());
    assert_eq!(r.wrap_type("base64").unwrap(), "application/vnd.x+json+base64");
    assert_eq!(Response::new(()).wrap_type("base64"), None);
}

#[test]
fn test_unwrap_wrap_body() {
    let r: Request<Vec<u8>> = Request::new(b"payload".to_vec());
    let (head, body) = r.unwrap_body();
    let r2: Request<Vec<u8>> = Request::wrap_body(head, body);
    assert_eq!(r2.into_body(), b"payload".to_vec());

    let s: Response<Vec<u8>> = Response::new(b"payload".to_vec());
    let (head, body) = s.unwrap_body();
    let s2: Response<Vec<u8>> = Response::wrap_body(head, body);
    assert_eq!(s2.into_body(), b"payload".to_vec());
}

#[test]
fn test_split_trimmed() {
    assert_eq!(
        split_trimmed("192.168.101.21, 10.0.0.13"),
        vec!["192.168.101.21".to_string(), "10.0.0.13".to_string()]
    );
    assert_eq!(split_trimmed("a"), vec!["a".to_string()]);
    assert_eq!(
        split_trimmed(" a ,\tb\t, "),
        vec!["a".to_string(), "b".to_string(), "".to_string()]
    );
}

#[test]
fn test_vec_binary_round_trip() {
    let v = b"abc".to_vec();
    let s = v.into_binary();
    assert_eq!(s, b"abc");
    let v2 = Vec::<u8>::from_binary(s).unwrap();
    assert_eq!(v2, v);
}
