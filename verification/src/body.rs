use vstd::prelude::*;
use crate::message::Request;
use crate::message::RequestParts;
use crate::message::Response;
use crate::message::ResponseParts;

verus! {

/// Splitting a message into its head and its body.
pub trait UnwrapBody<H, B> {
    spec fn spec_head(&self) -> H;

    spec fn spec_inner(&self) -> B;

    fn unwrap_body(self) -> (r: (H, B))
        ensures
            r.0 == self.spec_head(),
            r.1 == self.spec_inner(),
    ;
}

/// Rebuilding a message from a head and a body.
pub trait WrapBody<H, B>: Sized {
    spec fn spec_wrapped(h: H, b: B) -> Self;

    fn wrap_body(h: H, b: B) -> (r: Self)
        ensures
            r == Self::spec_wrapped(h, b),
    ;
}

impl<T> UnwrapBody<RequestParts, T> for Request<T> {
    open spec fn spec_head(&self) -> RequestParts {
        self.parts
    }

    open spec fn spec_inner(&self) -> T {
        self.body
    }

    fn unwrap_body(self) -> (r: (RequestParts, T)) {
        let Request { parts, body } = self;
        (parts, body)
    }
}

impl<T> WrapBody<RequestParts, T> for Request<T> {
    open spec fn spec_wrapped(h: RequestParts, b: T) -> Self {
        Request { parts: h, body: b }
    }

    fn wrap_body(h: RequestParts, b: T) -> (r: Self) {
        Request { parts: h, body: b }
    }
}

impl<T> UnwrapBody<ResponseParts, T> for Response<T> {
    open spec fn spec_head(&self) -> ResponseParts {
        self.parts
    }

    open spec fn spec_inner(&self) -> T {
        self.body
    }

    fn unwrap_body(self) -> (r: (ResponseParts, T)) {
        let Response { parts, body } = self;
        (parts, body)
    }
}

impl<T> WrapBody<ResponseParts, T> for Response<T> {
    open spec fn spec_wrapped(h: ResponseParts, b: T) -> Self {
        Response { parts: h, body: b }
    }

    fn wrap_body(h: ResponseParts, b: T) -> (r: Self) {
        Response { parts: h, body: b }
    }
}

} // verus!
