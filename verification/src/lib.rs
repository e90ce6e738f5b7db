//! Chained content-type encodings for HTTP-like messages.
//!
//! A `Content-Type` value such as `application/vnd.x.v1+json+base64` is read
//! as a base type followed by a chain of `+`-delimited tags, one per
//! transformation applied to the message body.  The [`content_type`] module
//! parses and mutates such chains; [`types_chain`] turns them into the
//! wrap/unwrap protocol that the codec modules ([`base64`], [`json`],
//! [`sealedbox`]) use to discover which transformation to reverse, or to
//! record the one they just applied.

pub mod base64;
pub mod binary;
pub mod body;
pub mod codec;
pub mod content_type;
pub mod header;
pub mod json;
pub mod message;
pub mod sealedbox;
pub mod text;
pub mod types_chain;

pub use codec::CodecError;
pub use codec::CodecResult;
pub use content_type::ContentType;
pub use content_type::ContentTypeSubtypesIterator;
