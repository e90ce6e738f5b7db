use vstd::prelude::*;
use vstd::slice::slice_to_vec;
use crate::sealedbox::PublicKey;
use crate::sealedbox::SecretKey;

verus! {

/// Reading a value as its plain bytes.
pub trait IntoBinary {
    /// The bytes the value stands for.
    spec fn bin(&self) -> Seq<u8>;

    fn into_binary<'a>(&'a self) -> (r: &'a [u8])
        ensures
            r@ == self.bin(),
    ;
}

/// Rebuilding a value from plain bytes; `bin_ok` says which byte strings
/// are accepted.
pub trait FromBinary: IntoBinary + Sized {
    spec fn bin_ok(b: Seq<u8>) -> bool;

    fn from_binary(b: &[u8]) -> (r: Option<Self>)
        ensures
            r is Some <==> Self::bin_ok(b@),
            (match r {
                Some(v) => v.bin() == b@,
                None => true,
            }),
    ;
}

impl IntoBinary for Vec<u8> {
    open spec fn bin(&self) -> Seq<u8> {
        self@
    }

    fn into_binary<'a>(&'a self) -> (r: &'a [u8]) {
        self.as_slice()
    }
}

impl FromBinary for Vec<u8> {
    open spec fn bin_ok(b: Seq<u8>) -> bool {
        true
    }

    fn from_binary(b: &[u8]) -> (r: Option<Vec<u8>>) {
        Some(slice_to_vec(b))
    }
}

impl IntoBinary for PublicKey {
    open spec fn bin(&self) -> Seq<u8> {
        self@
    }

    fn into_binary<'a>(&'a self) -> (r: &'a [u8]) {
        self.as_bytes()
    }
}

impl FromBinary for PublicKey {
    open spec fn bin_ok(b: Seq<u8>) -> bool {
        b.len() == 32
    }

    fn from_binary(b: &[u8]) -> (r: Option<PublicKey>) {
        if b.len() == 32 {
            Some(PublicKey::from_bytes(slice_to_vec(b)))
        } else {
            None
        }
    }
}

impl IntoBinary for SecretKey {
    open spec fn bin(&self) -> Seq<u8> {
        self@
    }

    fn into_binary<'a>(&'a self) -> (r: &'a [u8]) {
        self.as_bytes()
    }
}

impl FromBinary for SecretKey {
    open spec fn bin_ok(b: Seq<u8>) -> bool {
        b.len() == 32
    }

    fn from_binary(b: &[u8]) -> (r: Option<SecretKey>) {
        if b.len() == 32 {
            Some(SecretKey::from_bytes(slice_to_vec(b)))
        } else {
            None
        }
    }
}

} // verus!
