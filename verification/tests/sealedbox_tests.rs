use typechain::binary::FromBinary;
use typechain::binary::IntoBinary;
use typechain::codec::CodecError;
use typechain::header::ReadHeader;
use typechain::header::WriteHeader;
use typechain::message::Request;
use typechain::sealedbox::DecryptSealedbox;
use typechain::sealedbox::DecryptSealedboxBody;
use typechain::sealedbox::EncryptSealedbox;
use typechain::sealedbox::EncryptSealedboxBody;
use typechain::sealedbox::PublicKey;
use typechain::sealedbox::SecretKey;
use typechain::sealedbox::gen_keypair;

#[test]
fn test_sealedbox() {
    let (pk, sk) = gen_keypair();

    let mut a: Request<Vec<u8>> = Request::new(b"hello world".to_vec());
    a.set_header("Content-Type", "application/vnd.literium.v1+plain".to_string());

    let e = a.encrypt_sealedbox_auto_type(&pk).unwrap();

    assert!(e.is_header("Content-Type", "application/vnd.literium.v1+plain+sealedbox"));

    let d = e.decrypt_sealedbox_auto_type(&pk, &sk).unwrap();

    assert!(d.is_header("Content-Type", "application/vnd.literium.v1+plain"));

    assert_eq!(d.into_body(), b"hello world".to_vec());
}

#[test]
fn test_sealedbox_ciphertext_length() {
    let (pk, _sk) = gen_keypair();
    let a: Request<Vec<u8>> = Request::new(b"hello world".to_vec());
    let e = a.encrypt_sealedbox(&pk).unwrap();
    let body = e.into_body();

    assert_eq!(body.len(), b"hello world".len() + 48);
    assert_ne!(body, b"hello world".to_vec());
}

#[test]
fn test_sealedbox_wrong_key_fails() {
    let (pk, _sk) = gen_keypair();
    let (pk2, sk2) = gen_keypair();
    let a: Request<Vec<u8>> = Request::new(b"hello world".to_vec());
    let e = a.encrypt_sealedbox(&pk).unwrap();
    let d = e.decrypt_sealedbox(&pk2, &sk2);

    assert_eq!(d.unwrap_err(), CodecError::InvalidData);
}

#[test]
fn test_encrypt_sealedbox_auto_type_err_without_type() {
    let (pk, _sk) = gen_keypair();
    let a: Request<Vec<u8>> = Request::new(b"hello world".to_vec());
    let d = a.encrypt_sealedbox_auto_type(&pk);

    assert_eq!(d.unwrap_err(), CodecError::InvalidType);
}

#[test]
fn test_key_binary_round_trip() {
    let (pk, sk) = gen_keypair();
    let pk_bytes = pk.into_binary().to_vec();
    let sk_bytes = sk.into_binary().to_vec();

    assert_eq!(pk_bytes.len(), 32);
    assert_eq!(sk_bytes.len(), 32);

    let pk2 = PublicKey::from_binary(&pk_bytes).unwrap();
    let sk2 = SecretKey::from_binary(&sk_bytes).unwrap();

    assert_eq!(pk2.into_binary(), &pk_bytes[..]);
    assert_eq!(sk2.into_binary(), &sk_bytes[..]);

    assert!(PublicKey::from_binary(&pk_bytes[..31]).is_none());
    assert!(SecretKey::from_binary(&[]).is_none());
}
