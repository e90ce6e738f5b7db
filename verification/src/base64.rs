use vstd::prelude::*;
use ::base64::Engine;
use crate::body::UnwrapBody;
use crate::body::WrapBody;
use crate::codec::CodecError;
use crate::codec::CodecResult;
use crate::header::ReadHeader;
use crate::header::WriteHeader;
use crate::header::content_type_key;
use crate::header::lookup;
use crate::message::Request;
use crate::message::Response;
use crate::types_chain::UnwrapType;
use crate::types_chain::WrapType;
use crate::types_chain::spec_unwrap_type;
use crate::types_chain::spec_wrap_type;

verus! {

/// The base64 text (standard alphabet, padded) of a byte sequence.
pub uninterp spec fn b64_encoding(b: Seq<u8>) -> Seq<u8>;

/// What decoding a byte sequence as base64 yields, if it is valid base64.
pub uninterp spec fn b64_decoding(b: Seq<u8>) -> Option<Seq<u8>>;

#[verifier::external_type_specification]
#[verifier::external_body]
pub struct ExDecodeError(::base64::DecodeError);

pub type Base64Result<T> = Result<T, ::base64::DecodeError>;

/// Relies on base64's STANDARD-engine `encode`: the output is a function
/// of the input bytes alone, and `decode` maps it back to the input.
#[verifier::external_body]
fn b64_encode_bytes(b: &Vec<u8>) -> (r: Vec<u8>)
    ensures
        r@ == b64_encoding(b@),
        b64_decoding(r@) == Some(b@),
{
    ::base64::engine::general_purpose::STANDARD.encode(b).into_bytes()
}

/// Relies on base64's STANDARD-engine `decode`: success and the decoded
/// bytes are a function of the input alone; any non-alphabet byte, bad
/// padding or bad length is rejected.
#[verifier::external_body]
fn b64_decode_bytes(b: &Vec<u8>) -> (r: Base64Result<Vec<u8>>)
    ensures
        (match r {
            Ok(v) => b64_decoding(b@) == Some(v@),
            Err(_) => b64_decoding(b@) is None,
        }),
{
    ::base64::engine::general_purpose::STANDARD.decode(b)
}

/// The base64 decoding of a value's byte payload.
pub trait DecodeBase64: Sized {
    /// The bytes the decoder reads.
    spec fn b64_src(&self) -> Seq<u8>;

    /// `out` is `self` with the payload replaced by its base64 decoding.
    spec fn b64_decode_rel(&self, out: &Self) -> bool;

    fn decode_base64_native(self) -> (r: Base64Result<Self>)
        ensures
            r is Ok <==> b64_decoding(self.b64_src()) is Some,
            (match r {
                Ok(out) => self.b64_decode_rel(&out),
                Err(_) => true,
            }),
    ;

    fn decode_base64(self) -> (r: CodecResult<Self>)
        ensures
            r is Ok <==> b64_decoding(self.b64_src()) is Some,
            (match r {
                Ok(out) => self.b64_decode_rel(&out),
                Err(e) => e == CodecError::InvalidData,
            }),
    ;
}

/// The base64 encoding of a value's byte payload.
pub trait EncodeBase64: Sized {
    /// The bytes the encoder reads.
    spec fn b64_esrc(&self) -> Seq<u8>;

    /// `out` is `self` with the payload replaced by its base64 encoding.
    spec fn b64_encode_rel(&self, out: &Self) -> bool;

    fn encode_base64_native(self) -> (r: Base64Result<Self>)
        ensures
            r matches Ok(out) && self.b64_encode_rel(&out),
    ;

    fn encode_base64(self) -> (r: CodecResult<Self>)
        ensures
            r matches Ok(out) && self.b64_encode_rel(&out),
    ;
}

impl DecodeBase64 for Vec<u8> {
    open spec fn b64_src(&self) -> Seq<u8> {
        self@
    }

    open spec fn b64_decode_rel(&self, out: &Vec<u8>) -> bool {
        b64_decoding(self@) == Some(out@)
    }

    fn decode_base64_native(self) -> (r: Base64Result<Vec<u8>>) {
        b64_decode_bytes(&self)
    }

    fn decode_base64(self) -> (r: CodecResult<Vec<u8>>) {
        match self.decode_base64_native() {
            Ok(v) => Ok(v),
            Err(_) => Err(CodecError::InvalidData),
        }
    }
}

impl EncodeBase64 for Vec<u8> {
    open spec fn b64_esrc(&self) -> Seq<u8> {
        self@
    }

    open spec fn b64_encode_rel(&self, out: &Vec<u8>) -> bool {
        out@ == b64_encoding(self@) && b64_decoding(out@) == Some(self@)
    }

    fn encode_base64_native(self) -> (r: Base64Result<Vec<u8>>) {
        Ok(b64_encode_bytes(&self))
    }

    fn encode_base64(self) -> (r: CodecResult<Vec<u8>>) {
        Ok(b64_encode_bytes(&self))
    }
}

impl DecodeBase64 for Request<Vec<u8>> {
    open spec fn b64_src(&self) -> Seq<u8> {
        self.body@
    }

    open spec fn b64_decode_rel(&self, out: &Self) -> bool {
        &&& out.hdrs() == self.hdrs()
        &&& b64_decoding(self.body@) == Some(out.body@)
    }

    fn decode_base64_native(self) -> (r: Base64Result<Self>) {
        let (parts, body) = self.unwrap_body();
        match body.decode_base64_native() {
            Ok(b) => Ok(Request::wrap_body(parts, b)),
            Err(e) => Err(e),
        }
    }

    fn decode_base64(self) -> (r: CodecResult<Self>) {
        match self.decode_base64_native() {
            Ok(v) => Ok(v),
            Err(_) => Err(CodecError::InvalidData),
        }
    }
}

impl EncodeBase64 for Request<Vec<u8>> {
    open spec fn b64_esrc(&self) -> Seq<u8> {
        self.body@
    }

    open spec fn b64_encode_rel(&self, out: &Self) -> bool {
        &&& out.hdrs() == self.hdrs()
        &&& out.body@ == b64_encoding(self.body@)
        &&& b64_decoding(out.body@) == Some(self.body@)
    }

    fn encode_base64_native(self) -> (r: Base64Result<Self>) {
        let (parts, body) = self.unwrap_body();
        match body.encode_base64_native() {
            Ok(b) => Ok(Request::wrap_body(parts, b)),
            Err(e) => Err(e),
        }
    }

    fn encode_base64(self) -> (r: CodecResult<Self>) {
        match self.encode_base64_native() {
            Ok(v) => Ok(v),
            Err(_) => Err(CodecError::InvalidData),
        }
    }
}

impl DecodeBase64 for Response<Vec<u8>> {
    open spec fn b64_src(&self) -> Seq<u8> {
        self.body@
    }

    open spec fn b64_decode_rel(&self, out: &Self) -> bool {
        &&& out.hdrs() == self.hdrs()
        &&& b64_decoding(self.body@) == Some(out.body@)
    }

    fn decode_base64_native(self) -> (r: Base64Result<Self>) {
        let (parts, body) = self.unwrap_body();
        match body.decode_base64_native() {
            Ok(b) => Ok(Response::wrap_body(parts, b)),
            Err(e) => Err(e),
        }
    }

    fn decode_base64(self) -> (r: CodecResult<Self>) {
        match self.decode_base64_native() {
            Ok(v) => Ok(v),
            Err(_) => Err(CodecError::InvalidData),
        }
    }
}

impl EncodeBase64 for Response<Vec<u8>> {
    open spec fn b64_esrc(&self) -> Seq<u8> {
        self.body@
    }

    open spec fn b64_encode_rel(&self, out: &Self) -> bool {
        &&& out.hdrs() == self.hdrs()
        &&& out.body@ == b64_encoding(self.body@)
        &&& b64_decoding(out.body@) == Some(self.body@)
    }

    fn encode_base64_native(self) -> (r: Base64Result<Self>) {
        let (parts, body) = self.unwrap_body();
        match body.encode_base64_native() {
            Ok(b) => Ok(Response::wrap_body(parts, b)),
            Err(e) => Err(e),
        }
    }

    fn encode_base64(self) -> (r: CodecResult<Self>) {
        match self.encode_base64_native() {
            Ok(v) => Ok(v),
            Err(_) => Err(CodecError::InvalidData),
        }
    }
}

/// The three call shapes of base64 decoding over a header-bearing message.
pub trait DecodeBase64Body: DecodeBase64 + ReadHeader + WriteHeader + UnwrapType {
    /// Decode only when `Content-Type` equals `mimetype` exactly; headers
    /// are left untouched.
    fn decode_base64_with_type(self, mimetype: &str) -> (r: CodecResult<Self>)
        ensures
            lookup(self.hdrs(), content_type_key()) != Some(mimetype@) ==> (r matches Err(e) && e
                == CodecError::InvalidType),
            lookup(self.hdrs(), content_type_key()) == Some(mimetype@) ==> {
                &&& (r is Ok <==> b64_decoding(self.b64_src()) is Some)
                &&& (match r {
                    Ok(out) => self.b64_decode_rel(&out),
                    Err(e) => e == CodecError::InvalidData,
                })
            },
    ;

    /// Unwrap the `base64` chain tag, decode, and store the unwrapped type
    /// on success; a missing or mismatched tag aborts before any decoding.
    fn decode_base64_auto_type(self) -> (r: CodecResult<Self>)
        ensures
            spec_unwrap_type(self.hdrs(), "base64"@) is None ==> (r matches Err(e) && e
                == CodecError::InvalidType),
            spec_unwrap_type(self.hdrs(), "base64"@) matches Some(newct) ==> {
                &&& (r is Ok <==> b64_decoding(self.b64_src()) is Some)
                &&& (match r {
                    Ok(out) => {
                        &&& lookup(out.hdrs(), content_type_key()) == Some(newct)
                        &&& (forall|m: Seq<char>|
                            m != content_type_key() ==> lookup(out.hdrs(), m) == lookup(
                                self.hdrs(),
                                m,
                            ))
                        &&& b64_decoding(self.b64_src()) == Some(out.b64_src())
                    },
                    Err(e) => e == CodecError::InvalidData,
                })
            },
    ;
}

/// The three call shapes of base64 encoding over a header-bearing message.
pub trait EncodeBase64Body: EncodeBase64 + ReadHeader + WriteHeader + WrapType {
    /// Encode, then overwrite `Content-Type` with the literal given, chain
    /// or no chain.
    fn encode_base64_with_type(self, mimetype: &str) -> (r: CodecResult<Self>)
        ensures
            r matches Ok(out) && {
                &&& lookup(out.hdrs(), content_type_key()) == Some(mimetype@)
                &&& (forall|m: Seq<char>|
                    m != content_type_key() ==> lookup(out.hdrs(), m) == lookup(self.hdrs(), m))
                &&& out.b64_esrc() == b64_encoding(self.b64_esrc())
                &&& b64_decoding(out.b64_esrc()) == Some(self.b64_esrc())
            },
    ;

    /// Wrap the `base64` chain tag; only together with a successful encode
    /// is the new type stored.  Without a type to extend, nothing is
    /// encoded.
    fn encode_base64_auto_type(self) -> (r: CodecResult<Self>)
        ensures
            spec_wrap_type(self.hdrs(), "base64"@) is None ==> (r matches Err(e) && e
                == CodecError::InvalidType),
            spec_wrap_type(self.hdrs(), "base64"@) matches Some(newct) ==> (r matches Ok(out) && {
                &&& lookup(out.hdrs(), content_type_key()) == Some(newct)
                &&& (forall|m: Seq<char>|
                    m != content_type_key() ==> lookup(out.hdrs(), m) == lookup(self.hdrs(), m))
                &&& out.b64_esrc() == b64_encoding(self.b64_esrc())
                &&& b64_decoding(out.b64_esrc()) == Some(self.b64_esrc())
            }),
    ;
}

impl DecodeBase64Body for Request<Vec<u8>> {
    fn decode_base64_with_type(self, mimetype: &str) -> (r: CodecResult<Self>) {
        if self.is_header("Content-Type", mimetype) {
            self.decode_base64()
        } else {
            Err(CodecError::InvalidType)
        }
    }

    fn decode_base64_auto_type(self) -> (r: CodecResult<Self>) {
        match self.unwrap_type("base64") {
            Some(mimetype) => match self.decode_base64() {
                Ok(mut new_self) => {
                    new_self.set_header("Content-Type", mimetype);
                    Ok(new_self)
                },
                Err(e) => Err(e),
            },
            None => Err(CodecError::InvalidType),
        }
    }
}

impl EncodeBase64Body for Request<Vec<u8>> {
    fn encode_base64_with_type(self, mimetype: &str) -> (r: CodecResult<Self>) {
        match self.encode_base64() {
            Ok(mut new_self) => {
                new_self.set_header("Content-Type", mimetype.to_owned());
                Ok(new_self)
            },
            Err(e) => Err(e),
        }
    }

    fn encode_base64_auto_type(self) -> (r: CodecResult<Self>) {
        match self.wrap_type("base64") {
            Some(mimetype) => match self.encode_base64() {
                Ok(mut new_self) => {
                    new_self.set_header("Content-Type", mimetype);
                    Ok(new_self)
                },
                Err(e) => Err(e),
            },
            None => Err(CodecError::InvalidType),
        }
    }
}

impl DecodeBase64Body for Response<Vec<u8>> {
    fn decode_base64_with_type(self, mimetype: &str) -> (r: CodecResult<Self>) {
        if self.is_header("Content-Type", mimetype) {
            self.decode_base64()
        } else {
            Err(CodecError::InvalidType)
        }
    }

    fn decode_base64_auto_type(self) -> (r: CodecResult<Self>) {
        match self.unwrap_type("base64") {
            Some(mimetype) => match self.decode_base64() {
                Ok(mut new_self) => {
                    new_self.set_header("Content-Type", mimetype);
                    Ok(new_self)
                },
                Err(e) => Err(e),
            },
            None => Err(CodecError::InvalidType),
        }
    }
}

impl EncodeBase64Body for Response<Vec<u8>> {
    fn encode_base64_with_type(self, mimetype: &str) -> (r: CodecResult<Self>) {
        match self.encode_base64() {
            Ok(mut new_self) => {
                new_self.set_header("Content-Type", mimetype.to_owned());
                Ok(new_self)
            },
            Err(e) => Err(e),
        }
    }

    fn encode_base64_auto_type(self) -> (r: CodecResult<Self>) {
        match self.wrap_type("base64") {
            Some(mimetype) => match self.encode_base64() {
                Ok(mut new_self) => {
                    new_self.set_header("Content-Type", mimetype);
                    Ok(new_self)
                },
                Err(e) => Err(e),
            },
            None => Err(CodecError::InvalidType),
        }
    }
}

} // verus!
