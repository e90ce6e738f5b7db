use typechain::base64::DecodeBase64;
use typechain::base64::DecodeBase64Body;
use typechain::base64::EncodeBase64;
use typechain::base64::EncodeBase64Body;
use typechain::codec::CodecError;
use typechain::header::ReadHeader;
use typechain::header::WriteHeader;
use typechain::message::Request;
use typechain::message::Response;

#[test]
fn test_decode_base64_ok() {
    let a: Request<Vec<u8>> = Request::new(b"aGVsbG8gd29ybGQ=".to_vec());
    let d = a.decode_base64().unwrap();

    assert_eq!(d.into_body(), b"hello world".to_vec());
}

#[test]
fn test_decode_base64_err_data() {
    let a: Request<Vec<u8>> = Request::new(b"+aGVsbG8gd29ybGQ=".to_vec());
    let d = a.decode_base64();

    assert_eq!(d.unwrap_err(), CodecError::InvalidData);
}

#[test]
fn test_decode_base64_with_type_ok() {
    let mut a: Request<Vec<u8>> = Request::new(b"aGVsbG8gd29ybGQ=".to_vec());
    a.set_header("Content-Type", "application/base64".to_string());
    let d = a.decode_base64_with_type("application/base64").unwrap();

    assert_eq!(d.into_body(), b"hello world".to_vec());
}

#[test]
fn test_decode_base64_with_type_err_data() {
    let mut a: Request<Vec<u8>> = Request::new(b"+aGVsbG8gd29ybGQ=".to_vec());
    a.set_header("Content-Type", "application/base64".to_string());
    let d = a.decode_base64_with_type("application/base64");

    assert_eq!(d.unwrap_err(), CodecError::InvalidData);
}

#[test]
fn test_decode_base64_with_type_err_type() {
    let mut a: Request<Vec<u8>> = Request::new(b"aGVsbG8gd29ybGQ=".to_vec());
    a.set_header("Content-Type", "text/html".to_string());
    let d = a.decode_base64_with_type("application/base64");

    assert_eq!(d.unwrap_err(), CodecError::InvalidType);
}

#[test]
fn test_decode_base64_auto_type_ok() {
    let mut a: Request<Vec<u8>> = Request::new(b"aGVsbG8gd29ybGQ=".to_vec());
    a.set_header("Content-Type", "application/vnd.literium.v1+base64".to_string());
    let d = a.decode_base64_auto_type().unwrap();

    assert!(d.is_header("Content-Type", "application/vnd.literium.v1"));
}

#[test]
fn test_decode_base64_auto_type_err_data() {
    let mut a: Request<Vec<u8>> = Request::new(b"+aGVsbG8gd29ybGQ=".to_vec());
    a.set_header("Content-Type", "application/vnd.literium.v1+base64".to_string());
    let d = a.decode_base64_auto_type();

    assert_eq!(d.unwrap_err(), CodecError::InvalidData);
}

#[test]
fn test_decode_base64_auto_type_err_type() {
    let mut a: Request<Vec<u8>> = Request::new(b"aGVsbG8gd29ybGQ=".to_vec());
    a.set_header("Content-Type", "application/vnd.literium.v1+json".to_string());
    let d = a.decode_base64_auto_type();

    assert_eq!(d.unwrap_err(), CodecError::InvalidType);
}

#[test]
fn test_encode_base64() {
    let a: Response<Vec<u8>> = Response::new(b"hello world".to_vec());
    let d = a.encode_base64().unwrap();

    assert_eq!(d.into_body(), b"aGVsbG8gd29ybGQ=".to_vec());
}

#[test]
fn test_encode_base64_with_type() {
    let a: Response<Vec<u8>> = Response::new(b"hello world".to_vec());
    let d = a.encode_base64_with_type("application/base64").unwrap();

    assert!(d.is_header("Content-Type", "application/base64"));
    assert_eq!(d.into_body(), b"aGVsbG8gd29ybGQ=".to_vec());
}

#[test]
fn test_encode_base64_auto_type() {
    let mut a: Response<Vec<u8>> = Response::new(b"hello world".to_vec());
    a.set_header("Content-Type", "application/vnd.literium.v1".to_string());
    let d = a.encode_base64_auto_type().unwrap();

    assert!(d.is_header("Content-Type", "application/vnd.literium.v1+base64"));
    assert_eq!(d.into_body(), b"aGVsbG8gd29ybGQ=".to_vec());
}

#[test]
fn test_encode_base64_auto_type_err_without_type() {
    let a: Response<Vec<u8>> = Response::new(b"hello world".to_vec());
    let d = a.encode_base64_auto_type();

    assert_eq!(d.unwrap_err(), CodecError::InvalidType);
}

#[test]
fn test_base64_auto_type_round_trip() {
    let mut a: Request<Vec<u8>> = Request::new(b"hello world".to_vec());
    a.set_header("Content-Type", "application/vnd.x.v1+plain".to_string());
    let e = a.encode_base64_auto_type().unwrap();

    assert!(e.is_header("Content-Type", "application/vnd.x.v1+plain+base64"));

    let d = e.decode_base64_auto_type().unwrap();

    assert!(d.is_header("Content-Type", "application/vnd.x.v1+plain"));
    assert_eq!(d.into_body(), b"hello world".to_vec());
}

#[test]
fn test_decode_base64_auto_type_invalid_remainder() {
    let mut a: Request<Vec<u8>> = Request::new(b"aGVsbG8gd29ybGQ=".to_vec());
    a.set_header("Content-Type", "application/\u{1}x+base64".to_string());
    let d = a.decode_base64_auto_type();

    assert_eq!(d.unwrap_err(), CodecError::InvalidType);
}
