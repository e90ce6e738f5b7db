use typechain::codec::CodecError;
use typechain::header::ReadHeader;
use typechain::header::WriteHeader;
use typechain::json::DecodeJson;
use typechain::json::DecodeJsonBody;
use typechain::json::EncodeJson;
use typechain::json::EncodeJsonBody;
use typechain::message::Request;
use typechain::message::Response;

fn value_13_1_0() -> serde_json::Value {
    serde_json::from_str("[13,1,0]").unwrap()
}

#[test]
fn test_decode_json_ok() {
    let a: Request<Vec<u8>> = Request::new(b"[13,1,0]".to_vec());
    let d: Request<serde_json::Value> = a.decode_json().unwrap();

    assert_eq!(d.into_body(), value_13_1_0());
}

#[test]
fn test_decode_json_err_data() {
    let a: Request<Vec<u8>> = Request::new(b"{13,1,0}".to_vec());
    let d: Result<Request<serde_json::Value>, _> = a.decode_json();

    assert_eq!(d.unwrap_err(), CodecError::InvalidData);
}

#[test]
fn test_decode_json_with_type_ok() {
    let mut a: Request<Vec<u8>> = Request::new(b"[13,1,0]".to_vec());
    a.set_header("Content-Type", "application/json".to_string());
    let d: Request<serde_json::Value> = a.decode_json_with_type("application/json").unwrap();

    assert_eq!(d.into_body(), value_13_1_0());
}

#[test]
fn test_decode_json_with_type_err_data() {
    let mut a: Request<Vec<u8>> = Request::new(b"{13,1,0}".to_vec());
    a.set_header("Content-Type", "application/json".to_string());
    let d: Result<Request<serde_json::Value>, _> = a.decode_json_with_type("application/json");

    assert_eq!(d.unwrap_err(), CodecError::InvalidData);
}

#[test]
fn test_decode_json_with_type_err_type() {
    let mut a: Request<Vec<u8>> = Request::new(b"[13,1,0]".to_vec());
    a.set_header("Content-Type", "text/html".to_string());
    let d: Result<Request<serde_json::Value>, _> = a.decode_json_with_type("application/json");

    assert_eq!(d.unwrap_err(), CodecError::InvalidType);
}

#[test]
fn test_decode_json_auto_type_ok() {
    let mut a: Request<Vec<u8>> = Request::new(b"[13,1,0]".to_vec());
    a.set_header("Content-Type", "application/vnd.literium.v1+json".to_string());
    let d: Request<serde_json::Value> = a.decode_json_auto_type().unwrap();

    assert!(d.is_header("Content-Type", "application/vnd.literium.v1"));
}

#[test]
fn test_decode_json_auto_type_err_data() {
    let mut a: Request<Vec<u8>> = Request::new(b"[13;1;0]".to_vec());
    a.set_header("Content-Type", "application/vnd.literium.v1+json".to_string());
    let d: Result<Request<serde_json::Value>, _> = a.decode_json_auto_type();

    assert_eq!(d.unwrap_err(), CodecError::InvalidData);
}

#[test]
fn test_decode_json_auto_type_err_type() {
    let mut a: Request<Vec<u8>> = Request::new(b"[13,1,0]".to_vec());
    a.set_header("Content-Type", "application/vnd.literium.v1+base64".to_string());
    let d: Result<Request<serde_json::Value>, _> = a.decode_json_auto_type();

    assert_eq!(d.unwrap_err(), CodecError::InvalidType);
}

#[test]
fn test_encode_json() {
    let a: Response<serde_json::Value> = Response::new(value_13_1_0());
    let d: Response<Vec<u8>> = a.encode_json().unwrap();

    assert_eq!(d.into_body(), b"[13,1,0]".to_vec());
}

#[test]
fn test_encode_json_with_type() {
    let a: Response<serde_json::Value> = Response::new(value_13_1_0());
    let d: Response<Vec<u8>> = a.encode_json_with_type("application/json").unwrap();

    assert!(d.is_header("Content-Type", "application/json"));
    assert_eq!(d.into_body(), b"[13,1,0]".to_vec());
}

#[test]
fn test_encode_json_auto_type() {
    let mut a: Response<serde_json::Value> = Response::new(value_13_1_0());
    a.set_header("Content-Type", "application/vnd.literium.v1".to_string());
    let d: Response<Vec<u8>> = a.encode_json_auto_type().unwrap();

    assert!(d.is_header("Content-Type", "application/vnd.literium.v1+json"));
    assert_eq!(d.into_body(), b"[13,1,0]".to_vec());
}

#[test]
fn test_encode_json_deep_nesting_encodes_but_does_not_reparse() {
    // the serializer has no depth limit, the parser does: encoding always
    // succeeds, but the output of a deeply nested value is rejected on the
    // way back
    let mut v: serde_json::Value = serde_json::from_str("0").unwrap();
    for _ in 0..200 {
        v = serde_json::Value::Array(vec![v]);
    }
    let e: Response<Vec<u8>> = Response::new(v).encode_json().unwrap();
    let back: Result<Response<serde_json::Value>, _> = Response::new(e.into_body()).decode_json();
    assert_eq!(back.unwrap_err(), CodecError::InvalidData);
}

#[test]
fn test_json_auto_type_round_trip() {
    let mut a: Request<serde_json::Value> = Request::new(value_13_1_0());
    a.set_header("Content-Type", "application/vnd.x.v1".to_string());
    let e: Request<Vec<u8>> = a.encode_json_auto_type().unwrap();

    assert!(e.is_header("Content-Type", "application/vnd.x.v1+json"));

    let d: Request<serde_json::Value> = e.decode_json_auto_type().unwrap();

    assert!(d.is_header("Content-Type", "application/vnd.x.v1"));
    assert_eq!(d.into_body(), value_13_1_0());
}
