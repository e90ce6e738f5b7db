use vstd::prelude::*;

verus! {

/// The one failure taxonomy shared by every codec adapter: either the
/// declared or expected content type did not match (`InvalidType`), or the
/// byte payload failed to decode under the now-confirmed scheme
/// (`InvalidData`).  Native library errors are always collapsed to one of
/// these two, so callers see a uniform failure surface.
#[derive(Debug, Clone, Copy, PartialEq, Eq, Structural)]
pub enum CodecError {
    InvalidType,
    InvalidData,
}

pub type CodecResult<T> = Result<T, CodecError>;

} // verus!
