use vstd::prelude::*;
use crate::body::UnwrapBody;
use crate::body::WrapBody;
use crate::codec::CodecError;
use crate::codec::CodecResult;
use crate::header::ReadHeader;
use crate::header::WriteHeader;
use crate::header::content_type_key;
use crate::header::lookup;
use crate::message::Request;
use crate::message::Response;
use crate::types_chain::UnwrapType;
use crate::types_chain::WrapType;
use crate::types_chain::spec_unwrap_type;
use crate::types_chain::spec_wrap_type;

verus! {

/// Number of bytes a sealed box adds to its plaintext.
pub const SEALBYTES: usize = 48;

/// Whether `pk` and `sk` form one Curve25519 key pair.
pub uninterp spec fn sbox_keypair(pk: Seq<u8>, sk: Seq<u8>) -> bool;

/// What opening a sealed box with a key pair yields, if anything; opening
/// is a function of the ciphertext and the key pair alone.
pub uninterp spec fn sbox_opening(c: Seq<u8>, pk: Seq<u8>, sk: Seq<u8>) -> Option<Seq<u8>>;

/// A Curve25519 public key: 32 plain bytes.
pub struct PublicKey {
    pub(crate) bytes: Vec<u8>,
}

/// A Curve25519 secret key: 32 plain bytes.
pub struct SecretKey {
    pub(crate) bytes: Vec<u8>,
}

impl View for PublicKey {
    type V = Seq<u8>;

    closed spec fn view(&self) -> Seq<u8> {
        self.bytes@
    }
}

impl View for SecretKey {
    type V = Seq<u8>;

    closed spec fn view(&self) -> Seq<u8> {
        self.bytes@
    }
}

impl PublicKey {
    pub open spec fn wf(&self) -> bool {
        self@.len() == 32
    }

    pub fn from_bytes(bytes: Vec<u8>) -> (r: PublicKey)
        ensures
            r@ == bytes@,
    {
        PublicKey { bytes }
    }

    pub fn as_bytes<'a>(&'a self) -> (r: &'a [u8])
        ensures
            r@ == self@,
    {
        self.bytes.as_slice()
    }
}

impl SecretKey {
    pub open spec fn wf(&self) -> bool {
        self@.len() == 32
    }

    pub fn from_bytes(bytes: Vec<u8>) -> (r: SecretKey)
        ensures
            r@ == bytes@,
    {
        SecretKey { bytes }
    }

    pub fn as_bytes<'a>(&'a self) -> (r: &'a [u8])
        ensures
            r@ == self@,
    {
        self.bytes.as_slice()
    }
}

pub type SealedboxResult<T> = Result<T, ()>;

/// Relies on sodiumoxide's crypto_box `gen_keypair`: it returns a fresh
/// Curve25519 key pair.  Nothing is assumed of the drawn values beyond
/// their length and that they open each other's sealed boxes.
#[verifier::external_body]
pub fn gen_keypair() -> (r: (PublicKey, SecretKey))
    ensures
        r.0.wf(),
        r.1.wf(),
        sbox_keypair(r.0@, r.1@),
{
    let (pk, sk) = sodiumoxide::crypto::box_::gen_keypair();
    (PublicKey { bytes: pk.0.to_vec() }, SecretKey { bytes: sk.0.to_vec() })
}

/// Relies on sodiumoxide's sealedbox `seal`: the ciphertext is `SEALBYTES`
/// longer than the message, and the matching secret key opens it back to
/// the message.  Sealing draws a fresh ephemeral key, so nothing else is
/// assumed of the ciphertext bytes.
#[verifier::external_body]
fn seal_bytes(m: &Vec<u8>, pk: &PublicKey) -> (r: Vec<u8>)
    requires
        pk.wf(),
    ensures
        r@.len() == m@.len() + SEALBYTES,
        forall|sk: Seq<u8>| sbox_keypair(pk@, sk) ==> sbox_opening(r@, pk@, sk) == Some(m@),
{
    let pk = sodiumoxide::crypto::box_::PublicKey::from_slice(&pk.bytes).unwrap();
    sodiumoxide::crypto::sealedbox::seal(m, &pk)
}

/// Relies on sodiumoxide's sealedbox `open`: success and the decrypted
/// bytes are a function of the ciphertext and key pair alone; failure
/// reveals nothing more.
#[verifier::external_body]
fn open_bytes(c: &Vec<u8>, pk: &PublicKey, sk: &SecretKey) -> (r: SealedboxResult<Vec<u8>>)
    requires
        pk.wf(),
        sk.wf(),
    ensures
        (match r {
            Ok(m) => sbox_opening(c@, pk@, sk@) == Some(m@),
            Err(_) => sbox_opening(c@, pk@, sk@) is None,
        }),
{
    let pk = sodiumoxide::crypto::box_::PublicKey::from_slice(&pk.bytes).unwrap();
    let sk = sodiumoxide::crypto::box_::SecretKey::from_slice(&sk.bytes).unwrap();
    sodiumoxide::crypto::sealedbox::open(c, &pk, &sk)
}

/// Opening the sealed box around a value's byte payload.
pub trait DecryptSealedbox: Sized {
    /// The ciphertext the box holds.
    spec fn sbox_src(&self) -> Seq<u8>;

    /// `out` is `self` with the payload replaced by its decryption.
    spec fn sbox_decrypt_rel(&self, pk: &PublicKey, sk: &SecretKey, out: &Self) -> bool;

    fn decrypt_sealedbox_native(self, public_key: &PublicKey, secret_key: &SecretKey) -> (r:
        SealedboxResult<Self>)
        requires
            public_key.wf(),
            secret_key.wf(),
        ensures
            r is Ok <==> sbox_opening(self.sbox_src(), public_key@, secret_key@) is Some,
            (match r {
                Ok(out) => self.sbox_decrypt_rel(public_key, secret_key, &out),
                Err(_) => true,
            }),
    ;

    fn decrypt_sealedbox(self, public_key: &PublicKey, secret_key: &SecretKey) -> (r: CodecResult<
        Self,
    >)
        requires
            public_key.wf(),
            secret_key.wf(),
        ensures
            r is Ok <==> sbox_opening(self.sbox_src(), public_key@, secret_key@) is Some,
            (match r {
                Ok(out) => self.sbox_decrypt_rel(public_key, secret_key, &out),
                Err(e) => e == CodecError::InvalidData,
            }),
    ;
}

/// Sealing a value's byte payload to a recipient public key.
pub trait EncryptSealedbox: Sized {
    /// The plaintext to seal.
    spec fn sbox_esrc(&self) -> Seq<u8>;

    /// `out` is `self` with the payload replaced by a sealed box that the
    /// matching secret key opens back to it.
    spec fn sbox_encrypt_rel(&self, pk: &PublicKey, out: &Self) -> bool;

    fn encrypt_sealedbox_native(self, public_key: &PublicKey) -> (r: SealedboxResult<Self>)
        requires
            public_key.wf(),
        ensures
            r matches Ok(out) && self.sbox_encrypt_rel(public_key, &out),
    ;

    fn encrypt_sealedbox(self, public_key: &PublicKey) -> (r: CodecResult<Self>)
        requires
            public_key.wf(),
        ensures
            r matches Ok(out) && self.sbox_encrypt_rel(public_key, &out),
    ;
}

impl DecryptSealedbox for Vec<u8> {
    open spec fn sbox_src(&self) -> Seq<u8> {
        self@
    }

    open spec fn sbox_decrypt_rel(&self, pk: &PublicKey, sk: &SecretKey, out: &Vec<u8>) -> bool {
        sbox_opening(self@, pk@, sk@) == Some(out@)
    }

    fn decrypt_sealedbox_native(self, public_key: &PublicKey, secret_key: &SecretKey) -> (r:
        SealedboxResult<Vec<u8>>) {
        open_bytes(&self, public_key, secret_key)
    }

    fn decrypt_sealedbox(self, public_key: &PublicKey, secret_key: &SecretKey) -> (r: CodecResult<
        Vec<u8>,
    >) {
        match self.decrypt_sealedbox_native(public_key, secret_key) {
            Ok(v) => Ok(v),
            Err(_) => Err(CodecError::InvalidData),
        }
    }
}

impl EncryptSealedbox for Vec<u8> {
    open spec fn sbox_esrc(&self) -> Seq<u8> {
        self@
    }

    open spec fn sbox_encrypt_rel(&self, pk: &PublicKey, out: &Vec<u8>) -> bool {
        &&& out@.len() == self@.len() + SEALBYTES
        &&& (forall|sk: Seq<u8>| sbox_keypair(pk@, sk) ==> sbox_opening(out@, pk@, sk) == Some(
            self@,
        ))
    }

    fn encrypt_sealedbox_native(self, public_key: &PublicKey) -> (r: SealedboxResult<Vec<u8>>) {
        Ok(seal_bytes(&self, public_key))
    }

    fn encrypt_sealedbox(self, public_key: &PublicKey) -> (r: CodecResult<Vec<u8>>) {
        Ok(seal_bytes(&self, public_key))
    }
}

impl DecryptSealedbox for Request<Vec<u8>> {
    open spec fn sbox_src(&self) -> Seq<u8> {
        self.body@
    }

    open spec fn sbox_decrypt_rel(&self, pk: &PublicKey, sk: &SecretKey, out: &Self) -> bool {
        &&& out.hdrs() == self.hdrs()
        &&& sbox_opening(self.body@, pk@, sk@) == Some(out.body@)
    }

    fn decrypt_sealedbox_native(self, public_key: &PublicKey, secret_key: &SecretKey) -> (r:
        SealedboxResult<Self>) {
        let (parts, body) = self.unwrap_body();
        match body.decrypt_sealedbox_native(public_key, secret_key) {
            Ok(b) => Ok(Request::wrap_body(parts, b)),
            Err(e) => Err(e),
        }
    }

    fn decrypt_sealedbox(self, public_key: &PublicKey, secret_key: &SecretKey) -> (r: CodecResult<
        Self,
    >) {
        match self.decrypt_sealedbox_native(public_key, secret_key) {
            Ok(v) => Ok(v),
            Err(_) => Err(CodecError::InvalidData),
        }
    }
}

impl EncryptSealedbox for Request<Vec<u8>> {
    open spec fn sbox_esrc(&self) -> Seq<u8> {
        self.body@
    }

    open spec fn sbox_encrypt_rel(&self, pk: &PublicKey, out: &Self) -> bool {
        &&& out.hdrs() == self.hdrs()
        &&& out.body@.len() == self.body@.len() + SEALBYTES
        &&& (forall|sk: Seq<u8>| sbox_keypair(pk@, sk) ==> sbox_opening(out.body@, pk@, sk) == Some(
            self.body@,
        ))
    }

    fn encrypt_sealedbox_native(self, public_key: &PublicKey) -> (r: SealedboxResult<Self>) {
        let (parts, body) = self.unwrap_body();
        match body.encrypt_sealedbox_native(public_key) {
            Ok(b) => Ok(Request::wrap_body(parts, b)),
            Err(e) => Err(e),
        }
    }

    fn encrypt_sealedbox(self, public_key: &PublicKey) -> (r: CodecResult<Self>) {
        match self.encrypt_sealedbox_native(public_key) {
            Ok(v) => Ok(v),
            Err(_) => Err(CodecError::InvalidData),
        }
    }
}

impl DecryptSealedbox for Response<Vec<u8>> {
    open spec fn sbox_src(&self) -> Seq<u8> {
        self.body@
    }

    open spec fn sbox_decrypt_rel(&self, pk: &PublicKey, sk: &SecretKey, out: &Self) -> bool {
        &&& out.hdrs() == self.hdrs()
        &&& sbox_opening(self.body@, pk@, sk@) == Some(out.body@)
    }

    fn decrypt_sealedbox_native(self, public_key: &PublicKey, secret_key: &SecretKey) -> (r:
        SealedboxResult<Self>) {
        let (parts, body) = self.unwrap_body();
        match body.decrypt_sealedbox_native(public_key, secret_key) {
            Ok(b) => Ok(Response::wrap_body(parts, b)),
            Err(e) => Err(e),
        }
    }

    fn decrypt_sealedbox(self, public_key: &PublicKey, secret_key: &SecretKey) -> (r: CodecResult<
        Self,
    >) {
        match self.decrypt_sealedbox_native(public_key, secret_key) {
            Ok(v) => Ok(v),
            Err(_) => Err(CodecError::InvalidData),
        }
    }
}

impl EncryptSealedbox for Response<Vec<u8>> {
    open spec fn sbox_esrc(&self) -> Seq<u8> {
        self.body@
    }

    open spec fn sbox_encrypt_rel(&self, pk: &PublicKey, out: &Self) -> bool {
        &&& out.hdrs() == self.hdrs()
        &&& out.body@.len() == self.body@.len() + SEALBYTES
        &&& (forall|sk: Seq<u8>| sbox_keypair(pk@, sk) ==> sbox_opening(out.body@, pk@, sk) == Some(
            self.body@,
        ))
    }

    fn encrypt_sealedbox_native(self, public_key: &PublicKey) -> (r: SealedboxResult<Self>) {
        let (parts, body) = self.unwrap_body();
        match body.encrypt_sealedbox_native(public_key) {
            Ok(b) => Ok(Response::wrap_body(parts, b)),
            Err(e) => Err(e),
        }
    }

    fn encrypt_sealedbox(self, public_key: &PublicKey) -> (r: CodecResult<Self>) {
        match self.encrypt_sealedbox_native(public_key) {
            Ok(v) => Ok(v),
            Err(_) => Err(CodecError::InvalidData),
        }
    }
}

/// The three call shapes of sealed-box decryption over a header-bearing
/// message.
pub trait DecryptSealedboxBody: DecryptSealedbox + ReadHeader + WriteHeader + UnwrapType {
    /// Decrypt only when `Content-Type` equals `mimetype` exactly; headers
    /// are left untouched.
    fn decrypt_sealedbox_with_type(
        self,
        public_key: &PublicKey,
        secret_key: &SecretKey,
        mimetype: &str,
    ) -> (r: CodecResult<Self>)
        requires
            public_key.wf(),
            secret_key.wf(),
        ensures
            lookup(self.hdrs(), content_type_key()) != Some(mimetype@) ==> (r matches Err(e) && e
                == CodecError::InvalidType),
            lookup(self.hdrs(), content_type_key()) == Some(mimetype@) ==> {
                &&& (r is Ok <==> sbox_opening(self.sbox_src(), public_key@, secret_key@) is Some)
                &&& (match r {
                    Ok(out) => self.sbox_decrypt_rel(public_key, secret_key, &out),
                    Err(e) => e == CodecError::InvalidData,
                })
            },
    ;

    /// Unwrap the `sealedbox` chain tag, decrypt, and store the unwrapped
    /// type on success; a missing or mismatched tag aborts before any
    /// decryption.  An authentication failure maps to `InvalidData` like
    /// any other bad payload, so failures stay indistinguishable.
    fn decrypt_sealedbox_auto_type(self, public_key: &PublicKey, secret_key: &SecretKey) -> (r:
        CodecResult<Self>)
        requires
            public_key.wf(),
            secret_key.wf(),
        ensures
            spec_unwrap_type(self.hdrs(), "sealedbox"@) is None ==> (r matches Err(e) && e
                == CodecError::InvalidType),
            spec_unwrap_type(self.hdrs(), "sealedbox"@) matches Some(newct) ==> {
                &&& (r is Ok <==> sbox_opening(self.sbox_src(), public_key@, secret_key@) is Some)
                &&& (match r {
                    Ok(out) => {
                        &&& lookup(out.hdrs(), content_type_key()) == Some(newct)
                        &&& (forall|m: Seq<char>|
                            m != content_type_key() ==> lookup(out.hdrs(), m) == lookup(
                                self.hdrs(),
                                m,
                            ))
                        &&& sbox_opening(self.sbox_src(), public_key@, secret_key@) == Some(
                            out.sbox_src(),
                        )
                    },
                    Err(e) => e == CodecError::InvalidData,
                })
            },
    ;
}

/// The three call shapes of sealed-box encryption over a header-bearing
/// message.
pub trait EncryptSealedboxBody: EncryptSealedbox + ReadHeader + WriteHeader + WrapType {
    /// Encrypt, then overwrite `Content-Type` with the literal given,
    /// chain or no chain.
    fn encrypt_sealedbox_with_type(self, public_key: &PublicKey, mimetype: &str) -> (r: CodecResult<
        Self,
    >)
        requires
            public_key.wf(),
        ensures
            r matches Ok(out) && {
                &&& lookup(out.hdrs(), content_type_key()) == Some(mimetype@)
                &&& (forall|m: Seq<char>|
                    m != content_type_key() ==> lookup(out.hdrs(), m) == lookup(self.hdrs(), m))
                &&& out.sbox_esrc().len() == self.sbox_esrc().len() + SEALBYTES
                &&& (forall|sk: Seq<u8>|
                    sbox_keypair(public_key@, sk) ==> sbox_opening(out.sbox_esrc(), public_key@, sk)
                        == Some(self.sbox_esrc()))
            },
    ;

    /// Wrap the `sealedbox` chain tag; only together with a successful
    /// encryption is the new type stored.  Without a type to extend,
    /// nothing is encrypted.
    fn encrypt_sealedbox_auto_type(self, public_key: &PublicKey) -> (r: CodecResult<Self>)
        requires
            public_key.wf(),
        ensures
            spec_wrap_type(self.hdrs(), "sealedbox"@) is None ==> (r matches Err(e) && e
                == CodecError::InvalidType),
            spec_wrap_type(self.hdrs(), "sealedbox"@) matches Some(newct) ==> (r matches Ok(out)
                && {
                &&& lookup(out.hdrs(), content_type_key()) == Some(newct)
                &&& (forall|m: Seq<char>|
                    m != content_type_key() ==> lookup(out.hdrs(), m) == lookup(self.hdrs(), m))
                &&& out.sbox_esrc().len() == self.sbox_esrc().len() + SEALBYTES
                &&& (forall|sk: Seq<u8>|
                    sbox_keypair(public_key@, sk) ==> sbox_opening(out.sbox_esrc(), public_key@, sk)
                        == Some(self.sbox_esrc()))
            }),
    ;
}

impl DecryptSealedboxBody for Request<Vec<u8>> {
    fn decrypt_sealedbox_with_type(
        self,
        public_key: &PublicKey,
        secret_key: &SecretKey,
        mimetype: &str,
    ) -> (r: CodecResult<Self>) {
        if self.is_header("Content-Type", mimetype) {
            self.decrypt_sealedbox(public_key, secret_key)
        } else {
            Err(CodecError::InvalidType)
        }
    }

    fn decrypt_sealedbox_auto_type(self, public_key: &PublicKey, secret_key: &SecretKey) -> (r:
        CodecResult<Self>) {
        match self.unwrap_type("sealedbox") {
            Some(mimetype) => match self.decrypt_sealedbox(public_key, secret_key) {
                Ok(mut new_self) => {
                    new_self.set_header("Content-Type", mimetype);
                    Ok(new_self)
                },
                Err(e) => Err(e),
            },
            None => Err(CodecError::InvalidType),
        }
    }
}

impl EncryptSealedboxBody for Request<Vec<u8>> {
    fn encrypt_sealedbox_with_type(self, public_key: &PublicKey, mimetype: &str) -> (r: CodecResult<
        Self,
    >) {
        match self.encrypt_sealedbox(public_key) {
            Ok(mut new_self) => {
                new_self.set_header("Content-Type", mimetype.to_owned());
                Ok(new_self)
            },
            Err(e) => Err(e),
        }
    }

    fn encrypt_sealedbox_auto_type(self, public_key: &PublicKey) -> (r: CodecResult<Self>) {
        match self.wrap_type("sealedbox") {
            Some(mimetype) => match self.encrypt_sealedbox(public_key) {
                Ok(mut new_self) => {
                    new_self.set_header("Content-Type", mimetype);
                    Ok(new_self)
                },
                Err(e) => Err(e),
            },
            None => Err(CodecError::InvalidType),
        }
    }
}

impl DecryptSealedboxBody for Response<Vec<u8>> {
    fn decrypt_sealedbox_with_type(
        self,
        public_key: &PublicKey,
        secret_key: &SecretKey,
        mimetype: &str,
    ) -> (r: CodecResult<Self>) {
        if self.is_header("Content-Type", mimetype) {
            self.decrypt_sealedbox(public_key, secret_key)
        } else {
            Err(CodecError::InvalidType)
        }
    }

    fn decrypt_sealedbox_auto_type(self, public_key: &PublicKey, secret_key: &SecretKey) -> (r:
        CodecResult<Self>) {
        match self.unwrap_type("sealedbox") {
            Some(mimetype) => match self.decrypt_sealedbox(public_key, secret_key) {
                Ok(mut new_self) => {
                    new_self.set_header("Content-Type", mimetype);
                    Ok(new_self)
                },
                Err(e) => Err(e),
            },
            None => Err(CodecError::InvalidType),
        }
    }
}

impl EncryptSealedboxBody for Response<Vec<u8>> {
    fn encrypt_sealedbox_with_type(self, public_key: &PublicKey, mimetype: &str) -> (r: CodecResult<
        Self,
    >) {
        match self.encrypt_sealedbox(public_key) {
            Ok(mut new_self) => {
                new_self.set_header("Content-Type", mimetype.to_owned());
                Ok(new_self)
            },
            Err(e) => Err(e),
        }
    }

    fn encrypt_sealedbox_auto_type(self, public_key: &PublicKey) -> (r: CodecResult<Self>) {
        match self.wrap_type("sealedbox") {
            Some(mimetype) => match self.encrypt_sealedbox(public_key) {
                Ok(mut new_self) => {
                    new_self.set_header("Content-Type", mimetype);
                    Ok(new_self)
                },
                Err(e) => Err(e),
            },
            None => Err(CodecError::InvalidType),
        }
    }
}

} // verus!
