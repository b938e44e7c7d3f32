//! Deterministic, allocation-light DER/X.509 certificate encoding for a DICE
//! Protection Environment (DPE), together with the context-destroy command
//! that retires measurement contexts in the fixed-size context table.
//!
//! The encoder is a two-pass ASN.1 writer: every structure has a size query
//! and an emitter, and the contracts prove that the two always agree and that
//! the emitted bytes are exactly the DER encoding described by the spec
//! functions in `der` and `x509`.

pub mod der;
pub mod destroy_context;
pub mod dpe_instance;
pub mod response;
pub mod x509;

use vstd::prelude::*;

verus! {

/// Compile-time cipher-suite profile: elliptic curve, hash and the width in
/// bytes of the curve's scalars and coordinates.
#[derive(Clone, Copy, Debug, PartialEq, Eq, Structural)]
pub enum DpeProfile {
    P256Sha256,
    P384Sha384,
}

/// The profile this build of the library encodes for.
pub const DPE_PROFILE: DpeProfile = DpeProfile::P256Sha256;

impl DpeProfile {
    /// Width in bytes of one big-endian EC coordinate or scalar.
    pub open spec fn spec_ecc_int_size(self) -> nat {
        match self {
            DpeProfile::P256Sha256 => 32,
            DpeProfile::P384Sha384 => 48,
        }
    }

    /// Width in bytes of one hash digest.
    pub open spec fn spec_hash_size(self) -> nat {
        match self {
            DpeProfile::P256Sha256 => 32,
            DpeProfile::P384Sha384 => 48,
        }
    }

    pub fn get_ecc_int_size(&self) -> (r: usize)
        ensures
            r == self.spec_ecc_int_size(),
    {
        match self {
            DpeProfile::P256Sha256 => 32,
            DpeProfile::P384Sha384 => 48,
        }
    }

    pub fn get_hash_size(&self) -> (r: usize)
        ensures
            r == self.spec_hash_size(),
    {
        match self {
            DpeProfile::P256Sha256 => 32,
            DpeProfile::P384Sha384 => 48,
        }
    }
}

} // verus!
