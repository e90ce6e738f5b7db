use vstd::prelude::*;
use vstd::string::StrSliceExecFns;
use crate::header::HeaderMap;
use crate::header::HeaderSeq;
use crate::header::ReadHeader;
use crate::header::WriteHeader;

verus! {

/// Everything of a request apart from its body.
#[derive(Debug)]
pub struct RequestParts {
    pub headers: HeaderMap,
}

/// Everything of a response apart from its body.
#[derive(Debug)]
pub struct ResponseParts {
    pub headers: HeaderMap,
}

/// A header-bearing inbound message with a body slot.  The codec machinery
/// consumes a message by value and produces a fresh one.
#[derive(Debug)]
pub struct Request<B> {
    pub parts: RequestParts,
    pub body: B,
}

/// A header-bearing outbound message with a body slot.
#[derive(Debug)]
pub struct Response<B> {
    pub parts: ResponseParts,
    pub body: B,
}

impl<B> Request<B> {
    pub open spec fn spec_body(&self) -> B {
        self.body
    }

    pub fn new(body: B) -> (r: Request<B>)
        ensures
            r.hdrs() == Seq::<(Seq<char>, Seq<char>)>::empty(),
            r.spec_body() == body,
    {
        Request { parts: RequestParts { headers: HeaderMap::new() }, body }
    }

    pub fn into_body(self) -> (r: B)
        ensures
            r == self.spec_body(),
    {
        self.body
    }
}

impl<B> Response<B> {
    pub open spec fn spec_body(&self) -> B {
        self.body
    }

    pub fn new(body: B) -> (r: Response<B>)
        ensures
            r.hdrs() == Seq::<(Seq<char>, Seq<char>)>::empty(),
            r.spec_body() == body,
    {
        Response { parts: ResponseParts { headers: HeaderMap::new() }, body }
    }

    pub fn into_body(self) -> (r: B)
        ensures
            r == self.spec_body(),
    {
        self.body
    }
}

impl<B> ReadHeader for Request<B> {
    open spec fn hdrs(&self) -> HeaderSeq {
        self.parts.headers@
    }

    fn get_headers<'a>(&'a self) -> (r: &'a HeaderMap) {
        &self.parts.headers
    }

    fn is_header(&self, name: &str, value: &str) -> (r: bool) {
        self.parts.headers.is(name, value)
    }

    fn get_header<'a>(&'a self, name: &str) -> (r: Option<&'a String>) {
        self.parts.headers.get(name)
    }

    fn get_header_str<'a>(&'a self, name: &str) -> (r: Option<&'a str>) {
        match self.parts.headers.get(name) {
            Some(v) => Some(v.as_str()),
            None => None,
        }
    }

    fn get_header_bin(&self, name: &str) -> (r: Option<Vec<u8>>) {
        match self.parts.headers.get(name) {
            Some(v) => Some(v.as_str().as_bytes_vec()),
            None => None,
        }
    }
}

impl<B> WriteHeader for Request<B> {
    open spec fn same_apart_from_headers(&self, other: &Self) -> bool {
        self.spec_body() == other.spec_body()
    }

    fn set_header(&mut self, name: &str, value: String) {
        self.parts.headers.set(name, value);
    }
}

impl<B> ReadHeader for Response<B> {
    open spec fn hdrs(&self) -> HeaderSeq {
        self.parts.headers@
    }

    fn get_headers<'a>(&'a self) -> (r: &'a HeaderMap) {
        &self.parts.headers
    }

    fn is_header(&self, name: &str, value: &str) -> (r: bool) {
        self.parts.headers.is(name, value)
    }

    fn get_header<'a>(&'a self, name: &str) -> (r: Option<&'a String>) {
        self.parts.headers.get(name)
    }

    fn get_header_str<'a>(&'a self, name: &str) -> (r: Option<&'a str>) {
        match self.parts.headers.get(name) {
            Some(v) => Some(v.as_str()),
            None => None,
        }
    }

    fn get_header_bin(&self, name: &str) -> (r: Option<Vec<u8>>) {
        match self.parts.headers.get(name) {
            Some(v) => Some(v.as_str().as_bytes_vec()),
            None => None,
        }
    }
}

impl<B> WriteHeader for Response<B> {
    open spec fn same_apart_from_headers(&self, other: &Self) -> bool {
        self.spec_body() == other.spec_body()
    }

    fn set_header(&mut self, name: &str, value: String) {
        self.parts.headers.set(name, value);
    }
}

} // verus!
