use vstd::prelude::*;
use crate::body::UnwrapBody;
use crate::body::WrapBody;
use crate::codec::CodecError;
use crate::codec::CodecResult;
use crate::header::ReadHeader;
use crate::header::WriteHeader;
use crate::header::content_type_key;
use crate::header::lookup;
use crate::message::Request;
use crate::message::Response;
use crate::types_chain::UnwrapType;
use crate::types_chain::WrapType;
use crate::types_chain::spec_unwrap_type;
use crate::types_chain::spec_wrap_type;

verus! {

/// Whether a byte sequence parses as one JSON value.
pub uninterp spec fn json_accepts(b: Seq<u8>) -> bool;

#[verifier::external_type_specification]
#[verifier::external_body]
pub struct ExValue(serde_json::Value);

#[verifier::external_type_specification]
#[verifier::external_body]
pub struct ExJsonError(serde_json::Error);

pub type JsonResult<T> = Result<T, serde_json::Error>;

/// Relies on serde_json::from_slice::<Value>: whether the bytes parse is a
/// function of the bytes alone.
#[verifier::external_body]
fn json_decode_bytes(b: &Vec<u8>) -> (r: JsonResult<serde_json::Value>)
    ensures
        r is Ok <==> json_accepts(b@),
{
    serde_json::from_slice(b)
}

/// Relies on serde_json::to_vec: serializing a `Value` cannot fail (its
/// maps are string-keyed, its numbers finite, and the writer is a `Vec`).
/// Nothing is claimed of the bytes: the parser enforces a nesting depth
/// limit that the serializer does not, so the output of a deeply nested
/// value need not parse back.
#[verifier::external_body]
fn json_encode_value(v: &serde_json::Value) -> (r: JsonResult<Vec<u8>>)
    ensures
        r is Ok,
{
    serde_json::to_vec(v)
}

/// Deserializing a value's byte payload as JSON.
pub trait DecodeJson<T>: Sized {
    /// The bytes the parser reads.
    spec fn json_src(&self) -> Seq<u8>;

    /// What carries over from `self` to the parsed output.
    spec fn json_decode_rel(&self, out: &T) -> bool;

    fn decode_json_native(self) -> (r: JsonResult<T>)
        ensures
            r is Ok <==> json_accepts(self.json_src()),
            (match r {
                Ok(out) => self.json_decode_rel(&out),
                Err(_) => true,
            }),
    ;

    fn decode_json(self) -> (r: CodecResult<T>)
        ensures
            r is Ok <==> json_accepts(self.json_src()),
            (match r {
                Ok(out) => self.json_decode_rel(&out),
                Err(e) => e == CodecError::InvalidData,
            }),
    ;
}

/// Serializing a value into a JSON byte payload.  Serializing never fails
/// for the value types of this library, so both operations promise `Ok`.
pub trait EncodeJson<T>: Sized {
    /// What carries over from `self` to the serialized output.
    spec fn json_encode_rel(&self, out: &T) -> bool;

    fn encode_json_native(self) -> (r: JsonResult<T>)
        ensures
            r matches Ok(out) && self.json_encode_rel(&out),
    ;

    fn encode_json(self) -> (r: CodecResult<T>)
        ensures
            r matches Ok(out) && self.json_encode_rel(&out),
    ;
}

impl DecodeJson<serde_json::Value> for Vec<u8> {
    open spec fn json_src(&self) -> Seq<u8> {
        self@
    }

    // the parsed value is opaque to the verifier, so nothing carries over
    open spec fn json_decode_rel(&self, out: &serde_json::Value) -> bool {
        true
    }

    fn decode_json_native(self) -> (r: JsonResult<serde_json::Value>) {
        json_decode_bytes(&self)
    }

    fn decode_json(self) -> (r: CodecResult<serde_json::Value>) {
        match self.decode_json_native() {
            Ok(v) => Ok(v),
            Err(_) => Err(CodecError::InvalidData),
        }
    }
}

impl EncodeJson<Vec<u8>> for serde_json::Value {
    open spec fn json_encode_rel(&self, out: &Vec<u8>) -> bool {
        true
    }

    fn encode_json_native(self) -> (r: JsonResult<Vec<u8>>) {
        json_encode_value(&self)
    }

    fn encode_json(self) -> (r: CodecResult<Vec<u8>>) {
        match self.encode_json_native() {
            Ok(v) => Ok(v),
            Err(_) => Err(CodecError::InvalidData),
        }
    }
}

impl DecodeJson<Request<serde_json::Value>> for Request<Vec<u8>> {
    open spec fn json_src(&self) -> Seq<u8> {
        self.body@
    }

    open spec fn json_decode_rel(&self, out: &Request<serde_json::Value>) -> bool {
        out.hdrs() == self.hdrs()
    }

    fn decode_json_native(self) -> (r: JsonResult<Request<serde_json::Value>>) {
        let (parts, body) = self.unwrap_body();
        match body.decode_json_native() {
            Ok(v) => Ok(Request::wrap_body(parts, v)),
            Err(e) => Err(e),
        }
    }

    fn decode_json(self) -> (r: CodecResult<Request<serde_json::Value>>) {
        match self.decode_json_native() {
            Ok(v) => Ok(v),
            Err(_) => Err(CodecError::InvalidData),
        }
    }
}

impl EncodeJson<Request<Vec<u8>>> for Request<serde_json::Value> {
    open spec fn json_encode_rel(&self, out: &Request<Vec<u8>>) -> bool {
        out.hdrs() == self.hdrs()
    }

    fn encode_json_native(self) -> (r: JsonResult<Request<Vec<u8>>>) {
        let (parts, body) = self.unwrap_body();
        match body.encode_json_native() {
            Ok(v) => Ok(Request::wrap_body(parts, v)),
            Err(e) => Err(e),
        }
    }

    fn encode_json(self) -> (r: CodecResult<Request<Vec<u8>>>) {
        match self.encode_json_native() {
            Ok(v) => Ok(v),
            Err(_) => Err(CodecError::InvalidData),
        }
    }
}

impl DecodeJson<Response<serde_json::Value>> for Response<Vec<u8>> {
    open spec fn json_src(&self) -> Seq<u8> {
        self.body@
    }

    open spec fn json_decode_rel(&self, out: &Response<serde_json::Value>) -> bool {
        out.hdrs() == self.hdrs()
    }

    fn decode_json_native(self) -> (r: JsonResult<Response<serde_json::Value>>) {
        let (parts, body) = self.unwrap_body();
        match body.decode_json_native() {
            Ok(v) => Ok(Response::wrap_body(parts, v)),
            Err(e) => Err(e),
        }
    }

    fn decode_json(self) -> (r: CodecResult<Response<serde_json::Value>>) {
        match self.decode_json_native() {
            Ok(v) => Ok(v),
            Err(_) => Err(CodecError::InvalidData),
        }
    }
}

impl EncodeJson<Response<Vec<u8>>> for Response<serde_json::Value> {
    open spec fn json_encode_rel(&self, out: &Response<Vec<u8>>) -> bool {
        out.hdrs() == self.hdrs()
    }

    fn encode_json_native(self) -> (r: JsonResult<Response<Vec<u8>>>) {
        let (parts, body) = self.unwrap_body();
        match body.encode_json_native() {
            Ok(v) => Ok(Response::wrap_body(parts, v)),
            Err(e) => Err(e),
        }
    }

    fn encode_json(self) -> (r: CodecResult<Response<Vec<u8>>>) {
        match self.encode_json_native() {
            Ok(v) => Ok(v),
            Err(_) => Err(CodecError::InvalidData),
        }
    }
}

/// The three call shapes of JSON decoding over a header-bearing message.
pub trait DecodeJsonBody<T>: DecodeJson<T> + ReadHeader + UnwrapType where T: WriteHeader {
    /// Decode only when `Content-Type` equals `mimetype` exactly; headers
    /// are left untouched.
    fn decode_json_with_type(self, mimetype: &str) -> (r: CodecResult<T>)
        ensures
            lookup(self.hdrs(), content_type_key()) != Some(mimetype@) ==> (r matches Err(e) && e
                == CodecError::InvalidType),
            lookup(self.hdrs(), content_type_key()) == Some(mimetype@) ==> {
                &&& (r is Ok <==> json_accepts(self.json_src()))
                &&& (match r {
                    Ok(out) => self.json_decode_rel(&out),
                    Err(e) => e == CodecError::InvalidData,
                })
            },
    ;

    /// Unwrap the `json` chain tag, decode, and store the unwrapped type on
    /// success; a missing or mismatched tag aborts before any decoding.
    fn decode_json_auto_type(self) -> (r: CodecResult<T>)
        ensures
            spec_unwrap_type(self.hdrs(), "json"@) is None ==> (r matches Err(e) && e
                == CodecError::InvalidType),
            spec_unwrap_type(self.hdrs(), "json"@) matches Some(newct) ==> {
                &&& (r is Ok <==> json_accepts(self.json_src()))
                &&& (match r {
                    Ok(out) => {
                        &&& lookup(out.hdrs(), content_type_key()) == Some(newct)
                        &&& (forall|m: Seq<char>|
                            m != content_type_key() ==> lookup(out.hdrs(), m) == lookup(
                                self.hdrs(),
                                m,
                            ))
                    },
                    Err(e) => e == CodecError::InvalidData,
                })
            },
    ;
}

/// The three call shapes of JSON encoding over a header-bearing message.
/// Encoding never fails, so each shape promises `Ok` wherever its chain
/// handling allows it.
pub trait EncodeJsonBody<T>: EncodeJson<T> + ReadHeader + WrapType where T: WriteHeader {
    /// Encode, then overwrite `Content-Type` with the literal given, chain
    /// or no chain.
    fn encode_json_with_type(self, mimetype: &str) -> (r: CodecResult<T>)
        ensures
            r matches Ok(out) && {
                &&& lookup(out.hdrs(), content_type_key()) == Some(mimetype@)
                &&& (forall|m: Seq<char>|
                    m != content_type_key() ==> lookup(out.hdrs(), m) == lookup(self.hdrs(), m))
            },
    ;

    /// Wrap the `json` chain tag, encode, and store the new type together
    /// with the encoded body.  Without a type to extend, nothing is
    /// encoded.
    fn encode_json_auto_type(self) -> (r: CodecResult<T>)
        ensures
            spec_wrap_type(self.hdrs(), "json"@) is None ==> (r matches Err(e) && e
                == CodecError::InvalidType),
            spec_wrap_type(self.hdrs(), "json"@) matches Some(newct) ==> (r matches Ok(out) && {
                &&& lookup(out.hdrs(), content_type_key()) == Some(newct)
                &&& (forall|m: Seq<char>|
                    m != content_type_key() ==> lookup(out.hdrs(), m) == lookup(self.hdrs(), m))
            }),
    ;
}

impl DecodeJsonBody<Request<serde_json::Value>> for Request<Vec<u8>> {
    fn decode_json_with_type(self, mimetype: &str) -> (r: CodecResult<Request<serde_json::Value>>) {
        if self.is_header("Content-Type", mimetype) {
            self.decode_json()
        } else {
            Err(CodecError::InvalidType)
        }
    }

    fn decode_json_auto_type(self) -> (r: CodecResult<Request<serde_json::Value>>) {
        match self.unwrap_type("json") {
            Some(mimetype) => match self.decode_json() {
                Ok(mut new_self) => {
                    new_self.set_header("Content-Type", mimetype);
                    Ok(new_self)
                },
                Err(e) => Err(e),
            },
            None => Err(CodecError::InvalidType),
        }
    }
}

impl EncodeJsonBody<Request<Vec<u8>>> for Request<serde_json::Value> {
    fn encode_json_with_type(self, mimetype: &str) -> (r: CodecResult<Request<Vec<u8>>>) {
        match self.encode_json() {
            Ok(mut new_self) => {
                new_self.set_header("Content-Type", mimetype.to_owned());
                Ok(new_self)
            },
            Err(e) => Err(e),
        }
    }

    fn encode_json_auto_type(self) -> (r: CodecResult<Request<Vec<u8>>>) {
        match self.wrap_type("json") {
            Some(mimetype) => match self.encode_json() {
                Ok(mut new_self) => {
                    new_self.set_header("Content-Type", mimetype);
                    Ok(new_self)
                },
                Err(e) => Err(e),
            },
            None => Err(CodecError::InvalidType),
        }
    }
}

impl DecodeJsonBody<Response<serde_json::Value>> for Response<Vec<u8>> {
    fn decode_json_with_type(self, mimetype: &str) -> (r: CodecResult<
        Response<serde_json::Value>,
    >) {
        if self.is_header("Content-Type", mimetype) {
            self.decode_json()
        } else {
            Err(CodecError::InvalidType)
        }
    }

    fn decode_json_auto_type(self) -> (r: CodecResult<Response<serde_json::Value>>) {
        match self.unwrap_type("json") {
            Some(mimetype) => match self.decode_json() {
                Ok(mut new_self) => {
                    new_self.set_header("Content-Type", mimetype);
                    Ok(new_self)
                },
                Err(e) => Err(e),
            },
            None => Err(CodecError::InvalidType),
        }
    }
}

impl EncodeJsonBody<Response<Vec<u8>>> for Response<serde_json::Value> {
    fn encode_json_with_type(self, mimetype: &str) -> (r: CodecResult<Response<Vec<u8>>>) {
        match self.encode_json() {
            Ok(mut new_self) => {
                new_self.set_header("Content-Type", mimetype.to_owned());
                Ok(new_self)
            },
            Err(e) => Err(e),
        }
    }

    fn encode_json_auto_type(self) -> (r: CodecResult<Response<Vec<u8>>>) {
        match self.wrap_type("json") {
            Some(mimetype) => match self.encode_json() {
                Ok(mut new_self) => {
                    new_self.set_header("Content-Type", mimetype);
                    Ok(new_self)
                },
                Err(e) => Err(e),
            },
            None => Err(CodecError::InvalidType),
        }
    }
}

} // verus!
