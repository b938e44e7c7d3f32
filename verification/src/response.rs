//! Error codes and command responses surfaced by the DPE core.

use vstd::prelude::*;

verus! {

/// Flat error taxonomy shared by the encoder and the command layer.
///
/// `BufferOverflow` reports an output buffer with insufficient capacity;
/// `InternalError` reports a structure too large for a 3-octet DER length
/// field, an empty measurement set, or a violated logic precondition.
#[derive(Clone, Copy, Debug, PartialEq, Eq, Structural)]
pub enum DpeErrorCode {
    NoError,
    InternalError,
    BufferOverflow,
    InvalidHandle,
    InvalidLocality,
}

/// Header of a command response, carrying the status of the command.
#[derive(Clone, Copy, Debug, PartialEq, Eq, Structural)]
pub struct ResponseHdr {
    pub err_code: DpeErrorCode,
}

impl ResponseHdr {
    pub fn new(err_code: DpeErrorCode) -> (r: ResponseHdr)
        ensures
            r.err_code == err_code,
    {
        ResponseHdr { err_code }
    }
}

/// Responses of the commands covered by this library.
#[derive(Clone, Copy, Debug, PartialEq, Eq, Structural)]
pub enum Response {
    DestroyCtx(ResponseHdr),
}

} // verus!
