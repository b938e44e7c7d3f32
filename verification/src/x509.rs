//! Lightweight X.509 encoding routines for DPE.
//!
//! DPE emits variable-length attestation certificates into caller-supplied
//! buffers. Every DER form used has a size query and an emitter; the
//! contracts prove that the two agree and that the emitter writes exactly
//! the byte string given by the spec functions over the `der` model.

use vstd::prelude::*;

use crate::der::{
    der_integer, int_body, int_fits, len_field, lemma_int_body_suffix, lemma_strip_zeros_suffix,
    size_width, spliced, strip_zeros, tlv, MAX_STRUCTURE_SIZE,
};
use crate::dpe_instance::{TciMeasurement, TciNodeData};
use crate::response::DpeErrorCode;
use crate::{DpeProfile, DPE_PROFILE};

verus! {

pub const BOOL_TAG: u8 = 0x01;

pub const INTEGER_TAG: u8 = 0x02;

pub const BIT_STRING_TAG: u8 = 0x03;

pub const OCTET_STRING_TAG: u8 = 0x04;

pub const OID_TAG: u8 = 0x06;

pub const PRINTABLE_STRING_TAG: u8 = 0x13;

pub const GENERALIZE_TIME_TAG: u8 = 0x18;

pub const SEQUENCE_TAG: u8 = 0x30;

pub const SEQUENCE_OF_TAG: u8 = 0x30;

pub const SET_TAG: u8 = 0x31;

pub const SET_OF_TAG: u8 = 0x31;

/// Class bit for context-specific (implicit or explicit) tags.
pub const PRIVATE: u8 = 0x80;

/// Constructed bit, set on SET{ OF } and SEQUENCE{ OF } style tags.
pub const CONSTRUCTED: u8 = 0x20;

/// X.509 v3 as the INTEGER value of the version field.
pub const X509_V3: u64 = 2;

/// An ECDSA signature, each scalar one profile integer wide when well formed.
#[derive(Clone, Debug, PartialEq, Eq)]
pub struct EcdsaSignature {
    pub r: Vec<u8>,
    pub s: Vec<u8>,
}

impl EcdsaSignature {
    pub open spec fn wf(&self) -> bool {
        &&& self.r@.len() == DPE_PROFILE.spec_ecc_int_size()
        &&& self.s@.len() == DPE_PROFILE.spec_ecc_int_size()
    }
}

/// An ECDSA public key as big-endian affine coordinates, each one profile
/// integer wide when well formed.
#[derive(Clone, Debug, PartialEq, Eq)]
pub struct EcdsaPub {
    pub x: Vec<u8>,
    pub y: Vec<u8>,
}

impl EcdsaPub {
    pub open spec fn wf(&self) -> bool {
        &&& self.x@.len() == DPE_PROFILE.spec_ecc_int_size()
        &&& self.y@.len() == DPE_PROFILE.spec_ecc_int_size()
    }
}

/// A distinguished name: CommonName and SerialNumber, both as the bytes of a
/// PrintableString.
#[derive(Clone, Debug, PartialEq, Eq)]
pub struct Name {
    pub cn: Vec<u8>,
    pub serial: Vec<u8>,
}

/// The measurement set embedded in the MultiTcbInfo extension. An empty node
/// list is a hard error at encoding time.
#[derive(Clone, Debug, PartialEq, Eq)]
pub struct MeasurementData {
    pub label: Vec<u8>,
    pub tci_nodes: Vec<TciNodeData>,
}

impl MeasurementData {
    pub open spec fn wf(&self) -> bool {
        forall|i: int| 0 <= i < self.tci_nodes@.len() ==> self.tci_nodes@[i].wf()
    }
}

/// Cursor over an owned output buffer. Emitters write forward from `offset`
/// and never touch bytes outside the range they report written.
pub struct X509CertWriter {
    pub certificate: Vec<u8>,
    pub offset: usize,
}

/// `post` is `pre` with exactly `data` written at `pre.offset` and the cursor
/// advanced past it.
pub open spec fn wrote(pre: X509CertWriter, post: X509CertWriter, data: Seq<u8>) -> bool {
    &&& pre.offset + data.len() <= pre.certificate@.len()
    &&& post.certificate@.len() == pre.certificate@.len()
    &&& post.offset == pre.offset + data.len()
    &&& post.certificate@ == spliced(pre.certificate@, pre.offset as int, data)
}

/// Writing `a` and then `b` is writing `a + b`.
pub proof fn lemma_wrote_trans(
    w0: X509CertWriter,
    w1: X509CertWriter,
    w2: X509CertWriter,
    a: Seq<u8>,
    b: Seq<u8>,
)
    requires
        wrote(w0, w1, a),
        wrote(w1, w2, b),
    ensures
        wrote(w0, w2, a + b),
{
    assert(w2.certificate@ =~= spliced(w0.certificate@, w0.offset as int, a + b));
}

impl X509CertWriter {
    pub open spec fn wf(&self) -> bool {
        self.offset <= self.certificate@.len()
    }

    /// Remaining capacity in front of the cursor.
    pub open spec fn cap(&self) -> int {
        self.certificate@.len() - self.offset
    }

    /// Borrow the output buffer and start writing at its beginning.
    pub fn new(cert: Vec<u8>) -> (r: X509CertWriter)
        ensures
            r.wf(),
            r.offset == 0,
            r.certificate@ == cert@,
    {
        X509CertWriter { certificate: cert, offset: 0 }
    }

    /// Calculate the number of bytes the ASN.1 size field will be.
    pub fn get_size_width(size: usize) -> (r: Result<usize, DpeErrorCode>)
        ensures
            match r {
                Ok(w) => size <= MAX_STRUCTURE_SIZE && w == size_width(size as int),
                Err(e) => size > MAX_STRUCTURE_SIZE && e == DpeErrorCode::InternalError,
            },
    {
        if size <= 127 {
            Ok(1)
        } else if size <= 255 {
            Ok(2)
        } else if size <= 65535 {
            Ok(3)
        } else {
            Err(DpeErrorCode::InternalError)
        }
    }

    /// Size of an ASN.1 structure of `data_size` body bytes; if `tagged`,
    /// includes the tag and size fields.
    pub fn get_structure_size(data_size: usize, tagged: bool) -> (r: Result<usize, DpeErrorCode>)
        ensures
            match r {
                Ok(n) => {
                    &&& (tagged ==> data_size <= MAX_STRUCTURE_SIZE)
                    &&& n == spec_structure_size(data_size as int, tagged)
                    &&& data_size <= n <= data_size + 4
                },
                Err(e) => tagged && data_size > MAX_STRUCTURE_SIZE && e
                    == DpeErrorCode::InternalError,
            },
    {
        if tagged {
            let width = Self::get_size_width(data_size)?;
            Ok(1 + width + data_size)
        } else {
            Ok(data_size)
        }
    }

    /// Write all of `bytes` at the cursor.
    pub fn encode_bytes(&mut self, bytes: &[u8]) -> (r: Result<usize, DpeErrorCode>)
        requires
            old(self).wf(),
        ensures
            final(self).wf(),
            final(self).certificate@.len() == old(self).certificate@.len(),
            old(self).offset <= final(self).offset,
            match r {
                Ok(n) => n == bytes@.len() && wrote(*old(self), *final(self), bytes@),
                Err(e) => {
                    &&& e == DpeErrorCode::BufferOverflow
                    &&& old(self).cap() < bytes@.len()
                    &&& *final(self) == *old(self)
                },
            },
    {
        let size = bytes.len();
        if size > self.certificate.len() - self.offset {
            return Err(DpeErrorCode::BufferOverflow);
        }
        let mut j: usize = 0;
        while j < size
            invariant
                j <= size,
                size == bytes@.len(),
                self.offset == old(self).offset,
                old(self).offset + size <= self.certificate@.len(),
                self.certificate@.len() <= usize::MAX,
                self.certificate@.len() == old(self).certificate@.len(),
                self.certificate@ == spliced(
                    old(self).certificate@,
                    old(self).offset as int,
                    bytes@.take(j as int),
                ),
            decreases size - j,
        {
            self.certificate.set(self.offset + j, bytes[j as usize]);
            proof {
                assert(self.certificate@ =~= spliced(
                    old(self).certificate@,
                    old(self).offset as int,
                    bytes@.take(j + 1),
                ));
            }
            j += 1;
        }
        self.offset = self.offset + size;
        proof {
            assert(bytes@.take(size as int) =~= bytes@);
        }
        Ok(size)
    }

    /// Write a single byte at the cursor.
    pub fn encode_byte(&mut self, byte: u8) -> (r: Result<usize, DpeErrorCode>)
        requires
            old(self).wf(),
        ensures
            final(self).wf(),
            final(self).certificate@.len() == old(self).certificate@.len(),
            old(self).offset <= final(self).offset,
            match r {
                Ok(n) => n == 1 && wrote(*old(self), *final(self), seq![byte]),
                Err(e) => {
                    &&& e == DpeErrorCode::BufferOverflow
                    &&& old(self).cap() < 1
                    &&& *final(self) == *old(self)
                },
            },
    {
        if self.offset >= self.certificate.len() {
            return Err(DpeErrorCode::BufferOverflow);
        }
        self.certificate.set(self.offset, byte);
        self.offset = self.offset + 1;
        proof {
            assert(self.certificate@ =~= spliced(
                old(self).certificate@,
                old(self).offset as int,
                seq![byte],
            ));
        }
        Ok(1)
    }

    /// DER-encode the tag field of an ASN.1 type.
    pub fn encode_tag_field(&mut self, tag: u8) -> (r: Result<usize, DpeErrorCode>)
        requires
            old(self).wf(),
        ensures
            final(self).wf(),
            final(self).certificate@.len() == old(self).certificate@.len(),
            old(self).offset <= final(self).offset,
            match r {
                Ok(n) => n == 1 && wrote(*old(self), *final(self), seq![tag]),
                Err(e) => {
                    &&& e == DpeErrorCode::BufferOverflow
                    &&& old(self).cap() < 1
                    &&& *final(self) == *old(self)
                },
            },
    {
        self.encode_byte(tag)
    }

    /// DER-encode the size field of an ASN.1 type.
    pub fn encode_size_field(&mut self, size: usize) -> (r: Result<usize, DpeErrorCode>)
        requires
            old(self).wf(),
        ensures
            final(self).wf(),
            final(self).certificate@.len() == old(self).certificate@.len(),
            old(self).offset <= final(self).offset,
            match r {
                Ok(n) => {
                    &&& size <= MAX_STRUCTURE_SIZE
                    &&& n == size_width(size as int)
                    &&& wrote(*old(self), *final(self), len_field(size as int))
                },
                Err(e) => {
                    &&& (e == DpeErrorCode::InternalError || e == DpeErrorCode::BufferOverflow)
                    &&& (e == DpeErrorCode::InternalError ==> size > MAX_STRUCTURE_SIZE)
                    &&& (e == DpeErrorCode::BufferOverflow ==> size <= MAX_STRUCTURE_SIZE && old(
                        self,
                    ).cap() < size_width(size as int))
                },
            },
    {
        let width = Self::get_size_width(size)?;
        if width == 1 {
            self.encode_byte(size as u8)?;
        } else if width == 2 {
            let ghost w0 = *self;
            self.encode_byte(0x81)?;
            let ghost w1 = *self;
            self.encode_byte((size % 256) as u8)?;
            proof {
                lemma_wrote_trans(w0, w1, *self, seq![0x81u8], seq![(size % 256) as u8]);
                assert(seq![0x81u8] + seq![(size % 256) as u8] =~= len_field(size as int));
            }
        } else {
            let ghost w0 = *self;
            self.encode_byte(0x82)?;
            let ghost w1 = *self;
            self.encode_byte((size / 256) as u8)?;
            let ghost w2 = *self;
            self.encode_byte((size % 256) as u8)?;
            proof {
                lemma_wrote_trans(w0, w1, w2, seq![0x82u8], seq![(size / 256) as u8]);
                lemma_wrote_trans(
                    w0,
                    w2,
                    *self,
                    seq![0x82u8] + seq![(size / 256) as u8],
                    seq![(size % 256) as u8],
                );
                assert(seq![0x82u8] + seq![(size / 256) as u8] + seq![(size % 256) as u8]
                    =~= len_field(size as int));
            }
        }
        Ok(width)
    }
    /// Pre-encoded body of the profile's ECDSA-with-hash OID.
    pub fn ecdsa_oid() -> (r: Vec<u8>)
        ensures
            r@ == spec_ecdsa_oid(),
    {
        let r: Vec<u8> = match DPE_PROFILE {
            DpeProfile::P256Sha256 => vec![0x2A, 0x86, 0x48, 0xCE, 0x3D, 0x04, 0x03, 0x02],
            DpeProfile::P384Sha384 => vec![0x2A, 0x86, 0x48, 0xCE, 0x3D, 0x04, 0x03, 0x03],
        };
        proof {
            assert(r@ =~= spec_ecdsa_oid());
        }
        r
    }

    /// Pre-encoded body of the profile's named-curve OID.
    pub fn curve_oid() -> (r: Vec<u8>)
        ensures
            r@ == spec_curve_oid(),
    {
        let r: Vec<u8> = match DPE_PROFILE {
            DpeProfile::P256Sha256 => vec![0x2A, 0x86, 0x48, 0xCE, 0x3D, 0x03, 0x01, 0x07],
            DpeProfile::P384Sha384 => vec![0x2B, 0x81, 0x04, 0x00, 0x22],
        };
        proof {
            assert(r@ =~= spec_curve_oid());
        }
        r
    }

    /// Pre-encoded body of the profile's hash algorithm OID.
    pub fn hash_oid() -> (r: Vec<u8>)
        ensures
            r@ == spec_hash_oid(),
    {
        let r: Vec<u8> = match DPE_PROFILE {
            DpeProfile::P256Sha256 => vec![0x60, 0x86, 0x48, 0x01, 0x65, 0x03, 0x04, 0x02, 0x01],
            DpeProfile::P384Sha384 => vec![0x60, 0x86, 0x48, 0x01, 0x65, 0x03, 0x04, 0x02, 0x02],
        };
        proof {
            assert(r@ =~= spec_hash_oid());
        }
        r
    }

    /// Pre-encoded body of the id-at-commonName OID.
    pub fn rdn_common_name_oid() -> (r: Vec<u8>)
        ensures
            r@ == spec_rdn_common_name_oid(),
    {
        let r: Vec<u8> = vec![0x55, 0x04, 0x03];
        proof {
            assert(r@ =~= spec_rdn_common_name_oid());
        }
        r
    }

    /// Pre-encoded body of the id-at-serialNumber OID.
    pub fn rdn_serialnumber_oid() -> (r: Vec<u8>)
        ensures
            r@ == spec_rdn_serialnumber_oid(),
    {
        let r: Vec<u8> = vec![0x55, 0x04, 0x05];
        proof {
            assert(r@ =~= spec_rdn_serialnumber_oid());
        }
        r
    }

    /// Pre-encoded body of the tcg-dice-MultiTcbInfo OID.
    pub fn multi_tcbinfo_oid() -> (r: Vec<u8>)
        ensures
            r@ == spec_multi_tcbinfo_oid(),
    {
        let r: Vec<u8> = vec![0x67, 0x81, 0x05, 0x05, 0x04, 0x05];
        proof {
            assert(r@ =~= spec_multi_tcbinfo_oid());
        }
        r
    }

    /// ASCII bytes of the fixed notBefore GeneralizedTime.
    pub fn not_before() -> (r: Vec<u8>)
        ensures
            r@ == spec_not_before(),
    {
        let r: Vec<u8> = vec![
            0x32, 0x30, 0x32, 0x33, 0x30, 0x32, 0x32, 0x37, 0x30, 0x30, 0x30, 0x30, 0x30, 0x30,
            0x5A,
        ];
        proof {
            assert(r@ =~= spec_not_before());
        }
        r
    }

    /// ASCII bytes of the fixed notAfter GeneralizedTime.
    pub fn not_after() -> (r: Vec<u8>)
        ensures
            r@ == spec_not_after(),
    {
        let r: Vec<u8> = vec![
            0x39, 0x39, 0x39, 0x39, 0x31, 0x32, 0x33, 0x31, 0x32, 0x33, 0x35, 0x39, 0x35, 0x39,
            0x5A,
        ];
        proof {
            assert(r@ =~= spec_not_after());
        }
        r
    }

    /// Size of an ASN.1 raw bytes field (OCTET STRING, OID, string types);
    /// if `tagged`, includes the tag and size fields.
    pub fn get_bytes_size(bytes: &[u8], tagged: bool) -> (r: Result<usize, DpeErrorCode>)
        ensures
            match r {
                Ok(n) => {
                    &&& (tagged ==> bytes@.len() <= MAX_STRUCTURE_SIZE)
                    &&& n == spec_structure_size(bytes@.len() as int, tagged)
                },
                Err(e) => tagged && bytes@.len() > MAX_STRUCTURE_SIZE && e
                    == DpeErrorCode::InternalError,
            },
    {
        Self::get_structure_size(bytes.len(), tagged)
    }

    /// Size of the ASN.1 INTEGER encoding a big-endian buffer; if `tagged`,
    /// includes the tag and size fields.
    pub fn get_integer_bytes_size(integer: &[u8], tagged: bool) -> (r: Result<usize, DpeErrorCode>)
        requires
            integer@.len() < usize::MAX,
        ensures
            match r {
                Ok(n) => {
                    &&& (tagged ==> int_fits(integer@))
                    &&& n == if tagged {
                        der_integer(integer@).len()
                    } else {
                        int_body(integer@).len()
                    }
                },
                Err(e) => tagged && !int_fits(integer@) && e == DpeErrorCode::InternalError,
            },
    {
        let n = integer.len();
        let mut i: usize = 0;
        while i + 1 < n && integer[i] == 0
            invariant
                n == integer@.len(),
                n > 0 ==> i + 1 <= n,
                n == 0 ==> i == 0,
                forall|j: int| 0 <= j < i ==> integer@[j] == 0,
            decreases n - i,
        {
            i += 1;
        }
        proof {
            lemma_strip_zeros_suffix(integer@);
            if n > 0 {
                let s = strip_zeros(integer@);
                let k = n - s.len();
                if i < k {
                    assert(integer@[i as int] == 0);
                    assert(false);
                }
                if i > k {
                    assert(s.len() > n - i >= 1);
                    assert(s[0] == integer@[k]);
                    assert(integer@[k] == 0);
                    assert(false);
                }
                assert(i == k);
            }
        }
        let stripped = n - i;
        let size = if n > 0 && (integer[i] & 0x80) != 0 {
            stripped + 1
        } else {
            stripped
        };
        proof {
            let s = strip_zeros(integer@);
            if n > 0 {
                let b0 = integer@[i as int];
                assert(s[0] == b0);
                assert((b0 & 0x80) != 0 <==> b0 >= 0x80) by (bit_vector);
            }
            assert(size == int_body(integer@).len());
            crate::der::lemma_tlv_len(INTEGER_TAG, int_body(integer@));
        }
        Self::get_structure_size(size, tagged)
    }

    /// Size of the ASN.1 INTEGER encoding a 64-bit value; if `tagged`,
    /// includes the tag and size fields.
    pub fn get_integer_size(integer: u64, tagged: bool) -> (r: Result<usize, DpeErrorCode>)
        ensures
            r is Ok,
            match r {
                Ok(n) => n == if tagged {
                    der_integer(spec_u64_be(integer)).len()
                } else {
                    int_body(spec_u64_be(integer)).len()
                },
                Err(_) => false,
            },
    {
        let bytes = u64_be_bytes(integer);
        proof {
            lemma_int_body_suffix(spec_u64_be(integer));
        }
        Self::get_integer_bytes_size(bytes.as_slice(), tagged)
    }

    /// DER-encode a big-endian buffer as an ASN.1 INTEGER.
    pub fn encode_integer_bytes(&mut self, integer: &[u8]) -> (r: Result<usize, DpeErrorCode>)
        requires
            old(self).wf(),
            integer@.len() < usize::MAX,
        ensures
            final(self).wf(),
            final(self).certificate@.len() == old(self).certificate@.len(),
            old(self).offset <= final(self).offset,
            match r {
                Ok(n) => {
                    &&& int_fits(integer@)
                    &&& n == der_integer(integer@).len()
                    &&& wrote(*old(self), *final(self), der_integer(integer@))
                },
                Err(e) => {
                    &&& (e == DpeErrorCode::InternalError || e == DpeErrorCode::BufferOverflow)
                    &&& (e == DpeErrorCode::InternalError ==> !int_fits(integer@))
                    &&& (e == DpeErrorCode::BufferOverflow ==> old(self).cap() < der_integer(
                        integer@,
                    ).len())
                },
            },
    {
        proof {
            crate::der::lemma_tlv_len(INTEGER_TAG, int_body(integer@));
            lemma_int_body_suffix(integer@);
        }
        let ghost w0 = *self;
        let mut bytes_written = self.encode_tag_field(INTEGER_TAG)?;
        let ghost w1 = *self;

        let size = Self::get_integer_bytes_size(integer, false)?;
        bytes_written += self.encode_size_field(size)?;
        proof {
            lemma_wrote_trans(w0, w1, *self, seq![INTEGER_TAG], len_field(size as int));
        }
        let ghost w2 = *self;

        // Where to start reading from `integer` (skips the stripped zeros).
        let integer_offset = if size <= integer.len() {
            integer.len() - size
        } else {
            0
        };

        // If the body got longer, a null byte is prepended to keep the
        // INTEGER non-negative.
        if size > integer.len() {
            self.encode_byte(0)?;
            proof {
                lemma_wrote_trans(
                    w0,
                    w2,
                    *self,
                    seq![INTEGER_TAG] + len_field(size as int),
                    seq![0u8],
                );
            }
            bytes_written += 1;
        }
        let ghost w3 = *self;

        bytes_written += self.encode_bytes(&integer[integer_offset..integer.len()])?;
        proof {
            let body = int_body(integer@);
            let rest = integer@.subrange(integer_offset as int, integer@.len() as int);
            if size > integer.len() {
                lemma_wrote_trans(
                    w0,
                    w3,
                    *self,
                    seq![INTEGER_TAG] + len_field(size as int) + seq![0u8],
                    rest,
                );
                assert(seq![INTEGER_TAG] + len_field(size as int) + seq![0u8] + rest
                    =~= der_integer(integer@));
            } else {
                lemma_wrote_trans(w0, w3, *self, seq![INTEGER_TAG] + len_field(size as int), rest);
                assert(rest =~= body);
                assert(seq![INTEGER_TAG] + len_field(size as int) + rest =~= der_integer(
                    integer@,
                ));
            }
        }
        Ok(bytes_written)
    }

    /// DER-encode a 64-bit value as an ASN.1 INTEGER.
    pub fn encode_integer(&mut self, integer: u64) -> (r: Result<usize, DpeErrorCode>)
        requires
            old(self).wf(),
        ensures
            final(self).wf(),
            final(self).certificate@.len() == old(self).certificate@.len(),
            old(self).offset <= final(self).offset,
            match r {
                Ok(n) => {
                    &&& n == der_integer(spec_u64_be(integer)).len()
                    &&& wrote(*old(self), *final(self), der_integer(spec_u64_be(integer)))
                },
                Err(e) => {
                    &&& e == DpeErrorCode::BufferOverflow
                    &&& old(self).cap() < der_integer(spec_u64_be(integer)).len()
                },
            },
    {
        let bytes = u64_be_bytes(integer);
        proof {
            lemma_int_body_suffix(spec_u64_be(integer));
        }
        self.encode_integer_bytes(bytes.as_slice())
    }

    /// DER-encode pre-encoded OID body bytes as an ASN.1 ObjectIdentifier.
    pub fn encode_oid(&mut self, oid: &[u8]) -> (r: Result<usize, DpeErrorCode>)
        requires
            old(self).wf(),
        ensures
            final(self).wf(),
            final(self).certificate@.len() == old(self).certificate@.len(),
            old(self).offset <= final(self).offset,
            match r {
                Ok(n) => {
                    &&& oid@.len() <= MAX_STRUCTURE_SIZE
                    &&& n == der_oid(oid@).len()
                    &&& wrote(*old(self), *final(self), der_oid(oid@))
                },
                Err(e) => {
                    &&& (e == DpeErrorCode::InternalError || e == DpeErrorCode::BufferOverflow)
                    &&& (e == DpeErrorCode::InternalError ==> oid@.len() > MAX_STRUCTURE_SIZE)
                    &&& (e == DpeErrorCode::BufferOverflow ==> old(self).cap() < der_oid(
                        oid@,
                    ).len())
                },
            },
    {
        proof {
            crate::der::lemma_tlv_len(OID_TAG, oid@);
        }
        let ghost w0 = *self;
        let mut bytes_written = self.encode_tag_field(OID_TAG)?;
        let ghost w1 = *self;
        bytes_written += self.encode_size_field(oid.len())?;
        proof {
            lemma_wrote_trans(w0, w1, *self, seq![OID_TAG], len_field(oid@.len() as int));
        }
        let ghost w2 = *self;
        bytes_written += self.encode_bytes(oid)?;
        proof {
            lemma_wrote_trans(w0, w2, *self, seq![OID_TAG] + len_field(oid@.len() as int), oid@);
            assert(seq![OID_TAG] + len_field(oid@.len() as int) + oid@ =~= der_oid(oid@));
        }
        Ok(bytes_written)
    }

    /// DER-encode text bytes as an ASN.1 PrintableString.
    pub fn encode_printable_string(&mut self, s: &[u8]) -> (r: Result<usize, DpeErrorCode>)
        requires
            old(self).wf(),
        ensures
            final(self).wf(),
            final(self).certificate@.len() == old(self).certificate@.len(),
            old(self).offset <= final(self).offset,
            match r {
                Ok(n) => {
                    &&& s@.len() <= MAX_STRUCTURE_SIZE
                    &&& n == der_printable(s@).len()
                    &&& wrote(*old(self), *final(self), der_printable(s@))
                },
                Err(e) => {
                    &&& (e == DpeErrorCode::InternalError || e == DpeErrorCode::BufferOverflow)
                    &&& (e == DpeErrorCode::InternalError ==> s@.len() > MAX_STRUCTURE_SIZE)
                    &&& (e == DpeErrorCode::BufferOverflow ==> old(self).cap() < der_printable(
                        s@,
                    ).len())
                },
            },
    {
        proof {
            crate::der::lemma_tlv_len(PRINTABLE_STRING_TAG, s@);
        }
        let ghost w0 = *self;
        let mut bytes_written = self.encode_tag_field(PRINTABLE_STRING_TAG)?;
        let ghost w1 = *self;
        bytes_written += self.encode_size_field(s.len())?;
        proof {
            lemma_wrote_trans(
                w0,
                w1,
                *self,
                seq![PRINTABLE_STRING_TAG],
                len_field(s@.len() as int),
            );
        }
        let ghost w2 = *self;
        bytes_written += self.encode_bytes(s)?;
        proof {
            lemma_wrote_trans(
                w0,
                w2,
                *self,
                seq![PRINTABLE_STRING_TAG] + len_field(s@.len() as int),
                s@,
            );
            assert(seq![PRINTABLE_STRING_TAG] + len_field(s@.len() as int) + s@ =~= der_printable(
                s@,
            ));
        }
        Ok(bytes_written)
    }

    /// Size of the ECC AlgorithmIdentifier; if `tagged`, includes the tag
    /// and size fields.
    pub fn get_ecc_alg_id_size(tagged: bool) -> (r: Result<usize, DpeErrorCode>)
        ensures
            r is Ok,
            match r {
                Ok(n) => n == if tagged {
                    der_alg_id().len()
                } else {
                    spec_alg_id_body().len()
                },
                Err(_) => false,
            },
    {
        proof {
            lemma_alg_id_def();
            crate::der::lemma_tlv_len(OID_TAG, spec_ecdsa_oid());
            crate::der::lemma_tlv_len(OID_TAG, spec_curve_oid());
            crate::der::lemma_tlv_len(SEQUENCE_TAG, spec_alg_id_body());
        }
        let ecdsa = Self::ecdsa_oid();
        let curve = Self::curve_oid();
        let len = Self::get_bytes_size(ecdsa.as_slice(), true)? + Self::get_bytes_size(
            curve.as_slice(),
            true,
        )?;
        Self::get_structure_size(len, tagged)
    }

    /// Size of the Validity structure; if `tagged`, includes the tag and
    /// size fields.
    pub fn get_validity_size(tagged: bool) -> (r: Result<usize, DpeErrorCode>)
        ensures
            r is Ok,
            match r {
                Ok(n) => n == if tagged {
                    der_validity().len()
                } else {
                    spec_validity_body().len()
                },
                Err(_) => false,
            },
    {
        proof {
            lemma_validity_def();
            crate::der::lemma_tlv_len(GENERALIZE_TIME_TAG, spec_not_before());
            crate::der::lemma_tlv_len(GENERALIZE_TIME_TAG, spec_not_after());
            crate::der::lemma_tlv_len(SEQUENCE_TAG, spec_validity_body());
        }
        let not_before = Self::not_before();
        let not_after = Self::not_after();
        let len = Self::get_bytes_size(not_before.as_slice(), true)? + Self::get_bytes_size(
            not_after.as_slice(),
            true,
        )?;
        Self::get_structure_size(len, tagged)
    }

    /// Size of the ECDSA SubjectPublicKeyInfo; if `tagged`, includes the tag
    /// and size fields.
    pub fn get_ecdsa_subject_pubkey_info_size(pubkey: &EcdsaPub, tagged: bool) -> (r: Result<
        usize,
        DpeErrorCode,
    >)
        requires
            pubkey.wf(),
        ensures
            r is Ok,
            match r {
                Ok(n) => n == if tagged {
                    der_pubkey_info(*pubkey).len()
                } else {
                    spec_pubkey_info_body(*pubkey).len()
                },
                Err(_) => false,
            },
    {
        proof {
            lemma_pubkey_def(*pubkey);
            lemma_alg_id_def();
            crate::der::lemma_tlv_len(OID_TAG, spec_ecdsa_oid());
            crate::der::lemma_tlv_len(OID_TAG, spec_curve_oid());
            crate::der::lemma_tlv_len(SEQUENCE_TAG, spec_alg_id_body());
            crate::der::lemma_tlv_len(OCTET_STRING_TAG, spec_ec_point(*pubkey));
            crate::der::lemma_tlv_len(BIT_STRING_TAG, spec_pubkey_bitstring_body(*pubkey));
            crate::der::lemma_tlv_len(SEQUENCE_TAG, spec_pubkey_info_body(*pubkey));
        }
        let point_size = 1 + pubkey.x.len() + pubkey.y.len();

        let bitstring_size = 1 + Self::get_structure_size(point_size, true)?;
        let seq_size = Self::get_structure_size(bitstring_size, true)? + Self::get_ecc_alg_id_size(
            true,
        )?;

        Self::get_structure_size(seq_size, tagged)
    }

    /// Size of the signatureValue BIT STRING; if `tagged`, includes the tag
    /// and size fields.
    pub fn get_ecdsa_signature_size(sig: &EcdsaSignature, tagged: bool) -> (r: Result<
        usize,
        DpeErrorCode,
    >)
        requires
            sig.wf(),
        ensures
            r is Ok,
            match r {
                Ok(n) => n == if tagged {
                    der_ecdsa_signature(*sig).len()
                } else {
                    spec_sig_bitstring_body(*sig).len()
                },
                Err(_) => false,
            },
    {
        proof {
            lemma_sig_def(*sig);
            lemma_int_body_suffix(sig.r@);
            lemma_int_body_suffix(sig.s@);
            crate::der::lemma_tlv_len(INTEGER_TAG, int_body(sig.r@));
            crate::der::lemma_tlv_len(INTEGER_TAG, int_body(sig.s@));
            crate::der::lemma_tlv_len(SEQUENCE_TAG, spec_sig_seq_body(*sig));
            crate::der::lemma_tlv_len(BIT_STRING_TAG, spec_sig_bitstring_body(*sig));
        }
        let seq_size = Self::get_structure_size(
            Self::get_integer_bytes_size(sig.r.as_slice(), true)? + Self::get_integer_bytes_size(
                sig.s.as_slice(),
                true,
            )?,
            true,
        )?;

        // BIT STRING: one unused-bits octet in front of the SEQUENCE.
        Self::get_structure_size(1 + seq_size, tagged)
    }

    /// Size of the explicit `[0]` version field; if `tagged`, includes the
    /// explicit wrapping.
    pub fn get_version_size(tagged: bool) -> (r: Result<usize, DpeErrorCode>)
        ensures
            r is Ok,
            match r {
                Ok(n) => n == if tagged {
                    der_version().len()
                } else {
                    der_integer(spec_u64_be(X509_V3)).len()
                },
                Err(_) => false,
            },
    {
        proof {
            lemma_int_body_suffix(spec_u64_be(X509_V3));
            crate::der::lemma_tlv_len(INTEGER_TAG, int_body(spec_u64_be(X509_V3)));
            crate::der::lemma_tlv_len(0xA0u8, der_integer(spec_u64_be(X509_V3)));
        }
        let integer_size = Self::get_integer_size(X509_V3, true)?;

        // If tagged, also add the explicit wrapping.
        Self::get_structure_size(integer_size, tagged)
    }

    /// DER-encode the AlgorithmIdentifier of the profile's signing suite.
    pub fn encode_ecc_alg_id(&mut self) -> (r: Result<usize, DpeErrorCode>)
        requires
            old(self).wf(),
        ensures
            final(self).wf(),
            final(self).certificate@.len() == old(self).certificate@.len(),
            old(self).offset <= final(self).offset,
            match r {
                Ok(n) => n == der_alg_id().len() && wrote(*old(self), *final(self), der_alg_id()),
                Err(e) => {
                    &&& e == DpeErrorCode::BufferOverflow
                    &&& old(self).cap() < der_alg_id().len()
                },
            },
    {
        proof {
            lemma_alg_id_def();
            crate::der::lemma_tlv_len(OID_TAG, spec_ecdsa_oid());
            crate::der::lemma_tlv_len(OID_TAG, spec_curve_oid());
            crate::der::lemma_tlv_len(SEQUENCE_TAG, spec_alg_id_body());
        }
        let seq_size = Self::get_ecc_alg_id_size(false)?;

        let ghost w0 = *self;
        let mut bytes_written = self.encode_tag_field(SEQUENCE_TAG)?;
        let ghost w1 = *self;
        bytes_written += self.encode_size_field(seq_size)?;
        proof {
            lemma_wrote_trans(
                w0,
                w1,
                *self,
                seq![SEQUENCE_TAG],
                len_field(spec_alg_id_body().len() as int),
            );
        }
        let ghost w2 = *self;
        let ecdsa = Self::ecdsa_oid();
        bytes_written += self.encode_oid(ecdsa.as_slice())?;
        proof {
            lemma_wrote_trans(
                w0,
                w2,
                *self,
                seq![SEQUENCE_TAG] + len_field(spec_alg_id_body().len() as int),
                der_oid(spec_ecdsa_oid()),
            );
        }
        let ghost w3 = *self;
        let curve = Self::curve_oid();
        bytes_written += self.encode_oid(curve.as_slice())?;
        proof {
            lemma_wrote_trans(
                w0,
                w3,
                *self,
                seq![SEQUENCE_TAG] + len_field(spec_alg_id_body().len() as int) + der_oid(
                    spec_ecdsa_oid(),
                ),
                der_oid(spec_curve_oid()),
            );
            assert(seq![SEQUENCE_TAG] + len_field(spec_alg_id_body().len() as int) + der_oid(
                spec_ecdsa_oid(),
            ) + der_oid(spec_curve_oid()) =~= der_alg_id());
        }
        Ok(bytes_written)
    }

    /// DER-encode the fixed never-expiring Validity.
    pub fn encode_validity(&mut self) -> (r: Result<usize, DpeErrorCode>)
        requires
            old(self).wf(),
        ensures
            final(self).wf(),
            final(self).certificate@.len() == old(self).certificate@.len(),
            old(self).offset <= final(self).offset,
            match r {
                Ok(n) => n == der_validity().len() && wrote(
                    *old(self),
                    *final(self),
                    der_validity(),
                ),
                Err(e) => {
                    &&& e == DpeErrorCode::BufferOverflow
                    &&& old(self).cap() < der_validity().len()
                },
            },
    {
        proof {
            lemma_validity_def();
            crate::der::lemma_tlv_len(GENERALIZE_TIME_TAG, spec_not_before());
            crate::der::lemma_tlv_len(GENERALIZE_TIME_TAG, spec_not_after());
            crate::der::lemma_tlv_len(SEQUENCE_TAG, spec_validity_body());
        }
        let seq_size = Self::get_validity_size(false)?;

        let ghost w0 = *self;
        let mut bytes_written = self.encode_tag_field(SEQUENCE_TAG)?;
        let ghost w1 = *self;
        bytes_written += self.encode_size_field(seq_size)?;
        proof {
            lemma_wrote_trans(
                w0,
                w1,
                *self,
                seq![SEQUENCE_TAG],
                len_field(spec_validity_body().len() as int),
            );
        }
        let ghost prefix = seq![SEQUENCE_TAG] + len_field(spec_validity_body().len() as int);

        let ghost w2 = *self;
        bytes_written += self.encode_tag_field(GENERALIZE_TIME_TAG)?;
        proof {
            lemma_wrote_trans(w0, w2, *self, prefix, seq![GENERALIZE_TIME_TAG]);
        }
        let ghost w3 = *self;
        let not_before = Self::not_before();
        bytes_written += self.encode_size_field(not_before.len())?;
        proof {
            lemma_wrote_trans(
                w0,
                w3,
                *self,
                prefix + seq![GENERALIZE_TIME_TAG],
                len_field(spec_not_before().len() as int),
            );
        }
        let ghost w4 = *self;
        bytes_written += self.encode_bytes(not_before.as_slice())?;
        proof {
            lemma_wrote_trans(
                w0,
                w4,
                *self,
                prefix + seq![GENERALIZE_TIME_TAG] + len_field(spec_not_before().len() as int),
                spec_not_before(),
            );
            assert(prefix + seq![GENERALIZE_TIME_TAG] + len_field(spec_not_before().len() as int)
                + spec_not_before() =~= prefix + tlv(GENERALIZE_TIME_TAG, spec_not_before()));
        }
        let ghost prefix2 = prefix + tlv(GENERALIZE_TIME_TAG, spec_not_before());

        let ghost w5 = *self;
        bytes_written += self.encode_tag_field(GENERALIZE_TIME_TAG)?;
        proof {
            lemma_wrote_trans(w0, w5, *self, prefix2, seq![GENERALIZE_TIME_TAG]);
        }
        let ghost w6 = *self;
        let not_after = Self::not_after();
        bytes_written += self.encode_size_field(not_after.len())?;
        proof {
            lemma_wrote_trans(
                w0,
                w6,
                *self,
                prefix2 + seq![GENERALIZE_TIME_TAG],
                len_field(spec_not_after().len() as int),
            );
        }
        let ghost w7 = *self;
        bytes_written += self.encode_bytes(not_after.as_slice())?;
        proof {
            lemma_wrote_trans(
                w0,
                w7,
                *self,
                prefix2 + seq![GENERALIZE_TIME_TAG] + len_field(spec_not_after().len() as int),
                spec_not_after(),
            );
            assert(prefix2 + seq![GENERALIZE_TIME_TAG] + len_field(spec_not_after().len() as int)
                + spec_not_after() =~= der_validity());
        }
        Ok(bytes_written)
    }

    /// Encode SubjectPublicKeyInfo for an ECDSA public key: the profile's
    /// AlgorithmIdentifier, then a BIT STRING holding an OCTET STRING with
    /// the uncompressed point (the nested OCTET STRING is what this encoder
    /// emits; consumers must accept it).
    pub fn encode_ecdsa_subject_pubkey_info(&mut self, pubkey: &EcdsaPub) -> (r: Result<
        usize,
        DpeErrorCode,
    >)
        requires
            old(self).wf(),
            pubkey.wf(),
        ensures
            final(self).wf(),
            final(self).certificate@.len() == old(self).certificate@.len(),
            old(self).offset <= final(self).offset,
            match r {
                Ok(n) => n == der_pubkey_info(*pubkey).len() && wrote(
                    *old(self),
                    *final(self),
                    der_pubkey_info(*pubkey),
                ),
                Err(e) => {
                    &&& e == DpeErrorCode::BufferOverflow
                    &&& old(self).cap() < der_pubkey_info(*pubkey).len()
                },
            },
    {
        proof {
            lemma_pubkey_def(*pubkey);
            lemma_alg_id_def();
            crate::der::lemma_tlv_len(OID_TAG, spec_ecdsa_oid());
            crate::der::lemma_tlv_len(OID_TAG, spec_curve_oid());
            crate::der::lemma_tlv_len(SEQUENCE_TAG, spec_alg_id_body());
            crate::der::lemma_tlv_len(OCTET_STRING_TAG, spec_ec_point(*pubkey));
            crate::der::lemma_tlv_len(BIT_STRING_TAG, spec_pubkey_bitstring_body(*pubkey));
            crate::der::lemma_tlv_len(SEQUENCE_TAG, spec_pubkey_info_body(*pubkey));
        }
        let point_size = 1 + pubkey.x.len() + pubkey.y.len();
        let bitstring_size = 1 + Self::get_structure_size(point_size, true)?;
        let seq_size = Self::get_structure_size(bitstring_size, true)? + Self::get_ecc_alg_id_size(
            true,
        )?;

        let ghost w0 = *self;
        let mut bytes_written = self.encode_tag_field(SEQUENCE_TAG)?;
        let ghost w1 = *self;
        bytes_written += self.encode_size_field(seq_size)?;
        proof {
            lemma_wrote_trans(
                w0,
                w1,
                *self,
                seq![SEQUENCE_TAG],
                len_field(spec_pubkey_info_body(*pubkey).len() as int),
            );
        }
        let ghost prefix = seq![SEQUENCE_TAG] + len_field(
            spec_pubkey_info_body(*pubkey).len() as int,
        );
        let ghost w2 = *self;
        bytes_written += self.encode_ecc_alg_id()?;
        proof {
            lemma_wrote_trans(w0, w2, *self, prefix, der_alg_id());
        }
        let ghost prefix = prefix + der_alg_id();

        let ghost w3 = *self;
        bytes_written += self.encode_tag_field(BIT_STRING_TAG)?;
        proof {
            lemma_wrote_trans(w0, w3, *self, prefix, seq![BIT_STRING_TAG]);
        }
        let ghost w4 = *self;
        bytes_written += self.encode_size_field(bitstring_size)?;
        proof {
            lemma_wrote_trans(
                w0,
                w4,
                *self,
                prefix + seq![BIT_STRING_TAG],
                len_field(spec_pubkey_bitstring_body(*pubkey).len() as int),
            );
        }
        let ghost prefix = prefix + seq![BIT_STRING_TAG] + len_field(
            spec_pubkey_bitstring_body(*pubkey).len() as int,
        );
        // First octet of a BIT STRING is the unused-bits count; all bits
        // are used here.
        let ghost w5 = *self;
        bytes_written += self.encode_byte(0)?;
        proof {
            lemma_wrote_trans(w0, w5, *self, prefix, seq![0u8]);
        }
        let ghost prefix = prefix + seq![0u8];

        let ghost w6 = *self;
        bytes_written += self.encode_tag_field(OCTET_STRING_TAG)?;
        proof {
            lemma_wrote_trans(w0, w6, *self, prefix, seq![OCTET_STRING_TAG]);
        }
        let ghost w7 = *self;
        bytes_written += self.encode_size_field(point_size)?;
        proof {
            lemma_wrote_trans(
                w0,
                w7,
                *self,
                prefix + seq![OCTET_STRING_TAG],
                len_field(spec_ec_point(*pubkey).len() as int),
            );
        }
        let ghost prefix = prefix + seq![OCTET_STRING_TAG] + len_field(
            spec_ec_point(*pubkey).len() as int,
        );
        let ghost w8 = *self;
        bytes_written += self.encode_byte(0x4)?;
        proof {
            lemma_wrote_trans(w0, w8, *self, prefix, seq![0x04u8]);
        }
        let ghost prefix = prefix + seq![0x04u8];
        let ghost w9 = *self;
        bytes_written += self.encode_bytes(pubkey.x.as_slice())?;
        proof {
            lemma_wrote_trans(w0, w9, *self, prefix, pubkey.x@);
        }
        let ghost prefix = prefix + pubkey.x@;
        let ghost w10 = *self;
        bytes_written += self.encode_bytes(pubkey.y.as_slice())?;
        proof {
            lemma_wrote_trans(w0, w10, *self, prefix, pubkey.y@);
            assert(prefix + pubkey.y@ =~= der_pubkey_info(*pubkey));
        }
        Ok(bytes_written)
    }

    /// Encode the signatureValue: a BIT STRING containing the
    /// ECDSA-Sig-Value SEQUENCE of the two INTEGER scalars.
    pub fn encode_ecdsa_signature(&mut self, sig: &EcdsaSignature) -> (r: Result<
        usize,
        DpeErrorCode,
    >)
        requires
            old(self).wf(),
            sig.wf(),
        ensures
            final(self).wf(),
            final(self).certificate@.len() == old(self).certificate@.len(),
            old(self).offset <= final(self).offset,
            match r {
                Ok(n) => n == der_ecdsa_signature(*sig).len() && wrote(
                    *old(self),
                    *final(self),
                    der_ecdsa_signature(*sig),
                ),
                Err(e) => {
                    &&& e == DpeErrorCode::BufferOverflow
                    &&& old(self).cap() < der_ecdsa_signature(*sig).len()
                },
            },
    {
        proof {
            lemma_sig_def(*sig);
            lemma_int_body_suffix(sig.r@);
            lemma_int_body_suffix(sig.s@);
            crate::der::lemma_tlv_len(INTEGER_TAG, int_body(sig.r@));
            crate::der::lemma_tlv_len(INTEGER_TAG, int_body(sig.s@));
            crate::der::lemma_tlv_len(SEQUENCE_TAG, spec_sig_seq_body(*sig));
            crate::der::lemma_tlv_len(BIT_STRING_TAG, spec_sig_bitstring_body(*sig));
        }
        let seq_size = Self::get_integer_bytes_size(sig.r.as_slice(), true)?
            + Self::get_integer_bytes_size(sig.s.as_slice(), true)?;

        let ghost w0 = *self;
        let mut bytes_written = self.encode_tag_field(BIT_STRING_TAG)?;
        let ghost w1 = *self;
        bytes_written += self.encode_size_field(Self::get_structure_size(1 + seq_size, true)?)?;
        proof {
            lemma_wrote_trans(
                w0,
                w1,
                *self,
                seq![BIT_STRING_TAG],
                len_field(spec_sig_bitstring_body(*sig).len() as int),
            );
        }
        let ghost prefix = seq![BIT_STRING_TAG] + len_field(
            spec_sig_bitstring_body(*sig).len() as int,
        );
        // Unused bits.
        let ghost w2 = *self;
        bytes_written += self.encode_byte(0)?;
        proof {
            lemma_wrote_trans(w0, w2, *self, prefix, seq![0u8]);
        }
        let ghost prefix = prefix + seq![0u8];

        let ghost w3 = *self;
        bytes_written += self.encode_tag_field(SEQUENCE_TAG)?;
        proof {
            lemma_wrote_trans(w0, w3, *self, prefix, seq![SEQUENCE_TAG]);
        }
        let ghost w4 = *self;
        bytes_written += self.encode_size_field(seq_size)?;
        proof {
            lemma_wrote_trans(
                w0,
                w4,
                *self,
                prefix + seq![SEQUENCE_TAG],
                len_field(spec_sig_seq_body(*sig).len() as int),
            );
        }
        let ghost prefix = prefix + seq![SEQUENCE_TAG] + len_field(
            spec_sig_seq_body(*sig).len() as int,
        );
        let ghost w5 = *self;
        bytes_written += self.encode_integer_bytes(sig.r.as_slice())?;
        proof {
            lemma_wrote_trans(w0, w5, *self, prefix, der_integer(sig.r@));
        }
        let ghost prefix = prefix + der_integer(sig.r@);
        let ghost w6 = *self;
        bytes_written += self.encode_integer_bytes(sig.s.as_slice())?;
        proof {
            lemma_wrote_trans(w0, w6, *self, prefix, der_integer(sig.s@));
            assert(prefix + der_integer(sig.s@) =~= der_ecdsa_signature(*sig));
        }
        Ok(bytes_written)
    }

    /// Encode the version field: EXPLICIT `[0]` wrapping INTEGER 2 (v3).
    pub fn encode_version(&mut self) -> (r: Result<usize, DpeErrorCode>)
        requires
            old(self).wf(),
        ensures
            final(self).wf(),
            final(self).certificate@.len() == old(self).certificate@.len(),
            old(self).offset <= final(self).offset,
            match r {
                Ok(n) => n == der_version().len() && wrote(*old(self), *final(self), der_version()),
                Err(e) => {
                    &&& e == DpeErrorCode::BufferOverflow
                    &&& old(self).cap() < der_version().len()
                },
            },
    {
        proof {
            lemma_int_body_suffix(spec_u64_be(X509_V3));
            crate::der::lemma_tlv_len(INTEGER_TAG, int_body(spec_u64_be(X509_V3)));
            crate::der::lemma_tlv_len(0xA0u8, der_integer(spec_u64_be(X509_V3)));
            assert((PRIVATE | CONSTRUCTED) == 0xA0u8) by (bit_vector);
        }
        // Version is EXPLICIT field number 0.
        let ghost w0 = *self;
        let mut bytes_written = self.encode_byte(PRIVATE | CONSTRUCTED)?;
        let ghost w1 = *self;
        bytes_written += self.encode_size_field(Self::get_integer_size(X509_V3, true)?)?;
        proof {
            lemma_wrote_trans(
                w0,
                w1,
                *self,
                seq![0xA0u8],
                len_field(der_integer(spec_u64_be(X509_V3)).len() as int),
            );
        }
        let ghost w2 = *self;
        bytes_written += self.encode_integer(X509_V3)?;
        proof {
            lemma_wrote_trans(
                w0,
                w2,
                *self,
                seq![0xA0u8] + len_field(der_integer(spec_u64_be(X509_V3)).len() as int),
                der_integer(spec_u64_be(X509_V3)),
            );
            assert(seq![0xA0u8] + len_field(der_integer(spec_u64_be(X509_V3)).len() as int)
                + der_integer(spec_u64_be(X509_V3)) =~= der_version());
        }
        Ok(bytes_written)
    }

    /// Size of the two-attribute RelativeDistinguishedName; if `tagged`,
    /// includes the tag and size fields.
    pub fn get_rdn_size(name: &Name, tagged: bool) -> (r: Result<usize, DpeErrorCode>)
        ensures
            match r {
                Ok(n) => {
                    &&& (if tagged {
                        rdn_fits(*name)
                    } else {
                        rdn_inner_fits(*name)
                    })
                    &&& n == if tagged {
                        der_rdn(*name).len()
                    } else {
                        spec_rdn_body(*name).len()
                    }
                },
                Err(e) => e == DpeErrorCode::InternalError && !(if tagged {
                    rdn_fits(*name)
                } else {
                    rdn_inner_fits(*name)
                }),
            },
    {
        proof {
            lemma_rdn_def(*name);
            crate::der::lemma_tlv_len(OID_TAG, spec_rdn_common_name_oid());
            crate::der::lemma_tlv_len(OID_TAG, spec_rdn_serialnumber_oid());
            crate::der::lemma_tlv_len(PRINTABLE_STRING_TAG, name.cn@);
            crate::der::lemma_tlv_len(PRINTABLE_STRING_TAG, name.serial@);
            crate::der::lemma_tlv_len(
                SEQUENCE_TAG,
                spec_attr_body(spec_rdn_common_name_oid(), name.cn@),
            );
            crate::der::lemma_tlv_len(
                SEQUENCE_TAG,
                spec_attr_body(spec_rdn_serialnumber_oid(), name.serial@),
            );
            crate::der::lemma_tlv_len(SET_OF_TAG, spec_rdn_set_body(*name));
            crate::der::lemma_tlv_len(SEQUENCE_OF_TAG, spec_rdn_body(*name));
        }
        let cn_oid = Self::rdn_common_name_oid();
        let cn_seq_size = Self::get_structure_size(
            Self::get_bytes_size(cn_oid.as_slice(), true)? + Self::get_bytes_size(
                name.cn.as_slice(),
                true,
            )?,
            true,
        )?;
        // The serialNumber entry's size is computed with the CommonName
        // OID's length; the two OIDs are equally long, so size and emitted
        // bytes stay in agreement.
        let serialnumber_seq_size = Self::get_structure_size(
            Self::get_bytes_size(cn_oid.as_slice(), true)? + Self::get_bytes_size(
                name.serial.as_slice(),
                true,
            )?,
            true,
        )?;

        let set_len = Self::get_structure_size(cn_seq_size + serialnumber_seq_size, true)?;

        Self::get_structure_size(set_len, tagged)
    }

    /// DER-encode a RelativeDistinguishedName binding CommonName and
    /// SerialNumber, both as PrintableStrings, inside one SET.
    #[verifier::rlimit(80)]
    pub fn encode_rdn(&mut self, name: &Name) -> (r: Result<usize, DpeErrorCode>)
        requires
            old(self).wf(),
        ensures
            final(self).wf(),
            final(self).certificate@.len() == old(self).certificate@.len(),
            old(self).offset <= final(self).offset,
            match r {
                Ok(n) => {
                    &&& rdn_fits(*name)
                    &&& n == der_rdn(*name).len()
                    &&& wrote(*old(self), *final(self), der_rdn(*name))
                },
                Err(e) => {
                    &&& (e == DpeErrorCode::InternalError || e == DpeErrorCode::BufferOverflow)
                    &&& (e == DpeErrorCode::InternalError ==> !rdn_fits(*name))
                    &&& (e == DpeErrorCode::BufferOverflow ==> old(self).cap() < der_rdn(
                        *name,
                    ).len())
                },
            },
    {
        proof {
            lemma_rdn_def(*name);
            crate::der::lemma_tlv_len(OID_TAG, spec_rdn_common_name_oid());
            crate::der::lemma_tlv_len(OID_TAG, spec_rdn_serialnumber_oid());
            crate::der::lemma_tlv_len(PRINTABLE_STRING_TAG, name.cn@);
            crate::der::lemma_tlv_len(PRINTABLE_STRING_TAG, name.serial@);
            crate::der::lemma_tlv_len(
                SEQUENCE_TAG,
                spec_attr_body(spec_rdn_common_name_oid(), name.cn@),
            );
            crate::der::lemma_tlv_len(
                SEQUENCE_TAG,
                spec_attr_body(spec_rdn_serialnumber_oid(), name.serial@),
            );
            crate::der::lemma_tlv_len(SET_OF_TAG, spec_rdn_set_body(*name));
            crate::der::lemma_tlv_len(SEQUENCE_OF_TAG, spec_rdn_body(*name));
        }
        let cn_oid = Self::rdn_common_name_oid();
        let serialnumber_oid = Self::rdn_serialnumber_oid();
        let cn_size = Self::get_structure_size(cn_oid.len(), true)? + Self::get_structure_size(
            name.cn.len(),
            true,
        )?;
        // As in the size query, the CommonName OID's length stands in for
        // the equally long SerialNumber OID's.
        let serialnumber_size = Self::get_structure_size(cn_oid.len(), true)?
            + Self::get_structure_size(name.serial.len(), true)?;

        let rdn_set_size = Self::get_structure_size(cn_size, true)? + Self::get_structure_size(
            serialnumber_size,
            true,
        )?;
        let rdn_seq_size = Self::get_structure_size(rdn_set_size, true)?;

        // Encode RDN SEQUENCE OF.
        let ghost w0 = *self;
        let mut bytes_written = self.encode_tag_field(SEQUENCE_OF_TAG)?;
        let ghost w1 = *self;
        bytes_written += self.encode_size_field(rdn_seq_size)?;
        proof {
            lemma_wrote_trans(
                w0,
                w1,
                *self,
                seq![SEQUENCE_OF_TAG],
                len_field(spec_rdn_body(*name).len() as int),
            );
        }
        let ghost prefix = seq![SEQUENCE_OF_TAG] + len_field(spec_rdn_body(*name).len() as int);

        // Encode RDN SET.
        let ghost w2 = *self;
        bytes_written += self.encode_tag_field(SET_OF_TAG)?;
        proof {
            lemma_wrote_trans(w0, w2, *self, prefix, seq![SET_OF_TAG]);
        }
        let ghost w3 = *self;
        bytes_written += self.encode_size_field(rdn_set_size)?;
        proof {
            lemma_wrote_trans(
                w0,
                w3,
                *self,
                prefix + seq![SET_OF_TAG],
                len_field(spec_rdn_set_body(*name).len() as int),
            );
        }
        let ghost prefix = prefix + seq![SET_OF_TAG] + len_field(
            spec_rdn_set_body(*name).len() as int,
        );

        // Encode CN SEQUENCE.
        let ghost w4 = *self;
        bytes_written += self.encode_tag_field(SEQUENCE_TAG)?;
        proof {
            lemma_wrote_trans(w0, w4, *self, prefix, seq![SEQUENCE_TAG]);
        }
        let ghost w5 = *self;
        bytes_written += self.encode_size_field(cn_size)?;
        proof {
            lemma_wrote_trans(
                w0,
                w5,
                *self,
                prefix + seq![SEQUENCE_TAG],
                len_field(spec_attr_body(spec_rdn_common_name_oid(), name.cn@).len() as int),
            );
        }
        let ghost prefix = prefix + seq![SEQUENCE_TAG] + len_field(
            spec_attr_body(spec_rdn_common_name_oid(), name.cn@).len() as int,
        );
        let ghost w6 = *self;
        bytes_written += self.encode_oid(cn_oid.as_slice())?;
        proof {
            lemma_wrote_trans(w0, w6, *self, prefix, der_oid(spec_rdn_common_name_oid()));
        }
        let ghost prefix = prefix + der_oid(spec_rdn_common_name_oid());
        let ghost w7 = *self;
        bytes_written += self.encode_printable_string(name.cn.as_slice())?;
        proof {
            lemma_wrote_trans(w0, w7, *self, prefix, der_printable(name.cn@));
        }
        let ghost prefix = prefix + der_printable(name.cn@);

        // Encode SERIALNUMBER SEQUENCE.
        let ghost w8 = *self;
        bytes_written += self.encode_tag_field(SEQUENCE_TAG)?;
        proof {
            lemma_wrote_trans(w0, w8, *self, prefix, seq![SEQUENCE_TAG]);
        }
        let ghost w9 = *self;
        bytes_written += self.encode_size_field(serialnumber_size)?;
        proof {
            lemma_wrote_trans(
                w0,
                w9,
                *self,
                prefix + seq![SEQUENCE_TAG],
                len_field(spec_attr_body(spec_rdn_serialnumber_oid(), name.serial@).len() as int),
            );
        }
        let ghost prefix = prefix + seq![SEQUENCE_TAG] + len_field(
            spec_attr_body(spec_rdn_serialnumber_oid(), name.serial@).len() as int,
        );
        let ghost w10 = *self;
        bytes_written += self.encode_oid(serialnumber_oid.as_slice())?;
        proof {
            lemma_wrote_trans(w0, w10, *self, prefix, der_oid(spec_rdn_serialnumber_oid()));
        }
        let ghost prefix = prefix + der_oid(spec_rdn_serialnumber_oid());
        let ghost w11 = *self;
        bytes_written += self.encode_printable_string(name.serial.as_slice())?;
        proof {
            lemma_wrote_trans(w0, w11, *self, prefix, der_printable(name.serial@));
            assert(prefix + der_printable(name.serial@) =~= der_rdn(*name));
        }
        Ok(bytes_written)
    }

    /// Size of one DICE FWID structure; if `tagged`, includes the tag and
    /// size fields.
    pub fn get_fwid_size(digest: &[u8], tagged: bool) -> (r: Result<usize, DpeErrorCode>)
        ensures
            match r {
                Ok(n) => {
                    &&& (if tagged {
                        fwid_fits(digest@)
                    } else {
                        fwid_inner_fits(digest@)
                    })
                    &&& n == if tagged {
                        der_fwid(digest@).len()
                    } else {
                        spec_fwid_body(digest@).len()
                    }
                },
                Err(e) => e == DpeErrorCode::InternalError && !(if tagged {
                    fwid_fits(digest@)
                } else {
                    fwid_inner_fits(digest@)
                }),
            },
    {
        proof {
            lemma_fwid_def(digest@);
            crate::der::lemma_tlv_len(OID_TAG, spec_hash_oid());
            crate::der::lemma_tlv_len(OCTET_STRING_TAG, digest@);
            crate::der::lemma_tlv_len(SEQUENCE_TAG, spec_fwid_body(digest@));
        }
        let hash_oid = Self::hash_oid();
        let size = Self::get_structure_size(hash_oid.len(), true)? + Self::get_structure_size(
            digest.len(),
            true,
        )?;

        Self::get_structure_size(size, tagged)
    }

    /// Size of one tcg-dice-TcbInfo structure. Only the bare structure is
    /// counted: inside a MultiTcbInfo the standard extension fields do not
    /// recur per node.
    pub fn get_tcb_info_size(node: &TciNodeData, tagged: bool) -> (r: Result<usize, DpeErrorCode>)
        requires
            node.wf(),
        ensures
            r is Ok,
            match r {
                Ok(n) => n == if tagged {
                    der_tcb_info(*node).len()
                } else {
                    spec_tcb_info_body(*node).len()
                },
                Err(_) => false,
            },
    {
        proof {
            lemma_tcb_info_parts(*node);
        }
        // vendorInfo and type are four-byte OCTET STRINGs.
        let size = Self::get_structure_size(
            2 * Self::get_fwid_size(node.tci_current.0.as_slice(), true)?,
            true,
        )? + (2 * Self::get_structure_size(4, true)?);
        Self::get_structure_size(size, tagged)
    }

    /// Encode one DICE FWID: hash algorithm OID and digest.
    pub fn encode_fwid(&mut self, tci: &TciMeasurement) -> (r: Result<usize, DpeErrorCode>)
        requires
            old(self).wf(),
        ensures
            final(self).wf(),
            final(self).certificate@.len() == old(self).certificate@.len(),
            old(self).offset <= final(self).offset,
            match r {
                Ok(n) => {
                    &&& fwid_fits(tci.0@)
                    &&& n == der_fwid(tci.0@).len()
                    &&& wrote(*old(self), *final(self), der_fwid(tci.0@))
                },
                Err(e) => {
                    &&& (e == DpeErrorCode::InternalError || e == DpeErrorCode::BufferOverflow)
                    &&& (e == DpeErrorCode::InternalError ==> !fwid_fits(tci.0@))
                    &&& (e == DpeErrorCode::BufferOverflow ==> old(self).cap() < der_fwid(
                        tci.0@,
                    ).len())
                },
            },
    {
        proof {
            lemma_fwid_def(tci.0@);
            crate::der::lemma_tlv_len(OID_TAG, spec_hash_oid());
            crate::der::lemma_tlv_len(OCTET_STRING_TAG, tci.0@);
            crate::der::lemma_tlv_len(SEQUENCE_TAG, spec_fwid_body(tci.0@));
        }
        let hash_oid = Self::hash_oid();
        let ghost w0 = *self;
        let mut bytes_written = self.encode_byte(SEQUENCE_TAG)?;
        let ghost w1 = *self;
        bytes_written += self.encode_size_field(Self::get_fwid_size(tci.0.as_slice(), false)?)?;
        proof {
            lemma_wrote_trans(
                w0,
                w1,
                *self,
                seq![SEQUENCE_TAG],
                len_field(spec_fwid_body(tci.0@).len() as int),
            );
        }
        let ghost prefix = seq![SEQUENCE_TAG] + len_field(spec_fwid_body(tci.0@).len() as int);

        // hashAlg OID.
        let ghost w2 = *self;
        bytes_written += self.encode_byte(OID_TAG)?;
        proof {
            lemma_wrote_trans(w0, w2, *self, prefix, seq![OID_TAG]);
        }
        let ghost w3 = *self;
        bytes_written += self.encode_size_field(hash_oid.len())?;
        proof {
            lemma_wrote_trans(
                w0,
                w3,
                *self,
                prefix + seq![OID_TAG],
                len_field(spec_hash_oid().len() as int),
            );
        }
        let ghost w4 = *self;
        bytes_written += self.encode_bytes(hash_oid.as_slice())?;
        proof {
            lemma_wrote_trans(
                w0,
                w4,
                *self,
                prefix + seq![OID_TAG] + len_field(spec_hash_oid().len() as int),
                spec_hash_oid(),
            );
            assert(prefix + seq![OID_TAG] + len_field(spec_hash_oid().len() as int)
                + spec_hash_oid() =~= prefix + der_oid(spec_hash_oid()));
        }
        let ghost prefix = prefix + der_oid(spec_hash_oid());

        // digest OCTET STRING.
        let ghost w5 = *self;
        bytes_written += self.encode_byte(OCTET_STRING_TAG)?;
        proof {
            lemma_wrote_trans(w0, w5, *self, prefix, seq![OCTET_STRING_TAG]);
        }
        let ghost w6 = *self;
        bytes_written += self.encode_size_field(tci.0.len())?;
        proof {
            lemma_wrote_trans(
                w0,
                w6,
                *self,
                prefix + seq![OCTET_STRING_TAG],
                len_field(tci.0@.len() as int),
            );
        }
        let ghost w7 = *self;
        bytes_written += self.encode_bytes(tci.0.as_slice())?;
        proof {
            lemma_wrote_trans(
                w0,
                w7,
                *self,
                prefix + seq![OCTET_STRING_TAG] + len_field(tci.0@.len() as int),
                tci.0@,
            );
            assert(prefix + seq![OCTET_STRING_TAG] + len_field(tci.0@.len() as int) + tci.0@
                =~= der_fwid(tci.0@));
        }
        Ok(bytes_written)
    }

    /// Encode one tcg-dice-TcbInfo structure. Implicit tags carry the
    /// context-specific bit, and constructed forms the constructed bit as
    /// well: the fwids list is `[6]` constructed, vendorInfo `[8]` and type
    /// `[9]` primitive.
    #[verifier::rlimit(80)]
    pub fn encode_tcb_info(&mut self, node: &TciNodeData) -> (r: Result<usize, DpeErrorCode>)
        requires
            old(self).wf(),
            node.wf(),
        ensures
            final(self).wf(),
            final(self).certificate@.len() == old(self).certificate@.len(),
            old(self).offset <= final(self).offset,
            match r {
                Ok(n) => n == der_tcb_info(*node).len() && wrote(
                    *old(self),
                    *final(self),
                    der_tcb_info(*node),
                ),
                Err(e) => {
                    &&& e == DpeErrorCode::BufferOverflow
                    &&& old(self).cap() < der_tcb_info(*node).len()
                },
            },
    {
        proof {
            lemma_tcb_info_parts(*node);
            lemma_tcb_def(*node);
            lemma_fwid_def(node.tci_current.0@);
            lemma_fwid_def(node.tci_cumulative.0@);
            assert((PRIVATE | CONSTRUCTED | 0x06) == 0xA6u8) by (bit_vector);
            assert((PRIVATE | 0x08) == 0x88u8) by (bit_vector);
            assert((PRIVATE | 0x09) == 0x89u8) by (bit_vector);
        }
        let tcb_info_size = Self::get_tcb_info_size(node, false)?;
        // TcbInfo sequence.
        let ghost w0 = *self;
        let mut bytes_written = self.encode_byte(SEQUENCE_TAG)?;
        let ghost w1 = *self;
        bytes_written += self.encode_size_field(tcb_info_size)?;
        proof {
            lemma_wrote_trans(
                w0,
                w1,
                *self,
                seq![SEQUENCE_TAG],
                len_field(spec_tcb_info_body(*node).len() as int),
            );
        }
        let ghost prefix = seq![SEQUENCE_TAG] + len_field(spec_tcb_info_body(*node).len() as int);

        // fwids SEQUENCE OF, IMPLICIT [6] constructed.
        let fwid_size = Self::get_fwid_size(node.tci_current.0.as_slice(), true)?;
        let ghost w2 = *self;
        bytes_written += self.encode_byte(PRIVATE | CONSTRUCTED | 0x06)?;
        proof {
            lemma_wrote_trans(w0, w2, *self, prefix, seq![0xA6u8]);
        }
        let ghost w3 = *self;
        bytes_written += self.encode_size_field(fwid_size * 2)?;
        proof {
            lemma_wrote_trans(
                w0,
                w3,
                *self,
                prefix + seq![0xA6u8],
                len_field(spec_fwids_body(*node).len() as int),
            );
        }
        let ghost prefix = prefix + seq![0xA6u8] + len_field(spec_fwids_body(*node).len() as int);

        // fwid[0]: current measurement.
        let ghost w4 = *self;
        bytes_written += self.encode_fwid(&node.tci_current)?;
        proof {
            lemma_wrote_trans(w0, w4, *self, prefix, der_fwid(node.tci_current.0@));
        }
        let ghost prefix = prefix + der_fwid(node.tci_current.0@);

        // fwid[1]: journey measurement.
        let ghost w5 = *self;
        bytes_written += self.encode_fwid(&node.tci_cumulative)?;
        proof {
            lemma_wrote_trans(w0, w5, *self, prefix, der_fwid(node.tci_cumulative.0@));
        }
        let ghost prefix = prefix + der_fwid(node.tci_cumulative.0@);

        // vendorInfo OCTET STRING, IMPLICIT [8] primitive.
        let vinfo = vendor_info_bytes(node);
        let ghost w6 = *self;
        bytes_written += self.encode_byte(PRIVATE | 0x08)?;
        proof {
            lemma_wrote_trans(w0, w6, *self, prefix, seq![0x88u8]);
        }
        let ghost w7 = *self;
        bytes_written += self.encode_size_field(vinfo.len())?;
        proof {
            lemma_wrote_trans(
                w0,
                w7,
                *self,
                prefix + seq![0x88u8],
                len_field(spec_vendor_info(*node).len() as int),
            );
        }
        let ghost w8 = *self;
        bytes_written += self.encode_bytes(vinfo.as_slice())?;
        proof {
            lemma_wrote_trans(
                w0,
                w8,
                *self,
                prefix + seq![0x88u8] + len_field(spec_vendor_info(*node).len() as int),
                spec_vendor_info(*node),
            );
            assert(prefix + seq![0x88u8] + len_field(spec_vendor_info(*node).len() as int)
                + spec_vendor_info(*node) =~= prefix + tlv(0x88u8, spec_vendor_info(*node)));
        }
        let ghost prefix = prefix + tlv(0x88u8, spec_vendor_info(*node));

        // type OCTET STRING, IMPLICIT [9] primitive.
        let tci_type = u32_be_bytes(node.tci_type);
        let ghost w9 = *self;
        bytes_written += self.encode_byte(PRIVATE | 0x09)?;
        proof {
            lemma_wrote_trans(w0, w9, *self, prefix, seq![0x89u8]);
        }
        let ghost w10 = *self;
        bytes_written += self.encode_size_field(4)?;
        proof {
            lemma_wrote_trans(
                w0,
                w10,
                *self,
                prefix + seq![0x89u8],
                len_field(spec_u32_be(node.tci_type).len() as int),
            );
        }
        let ghost w11 = *self;
        bytes_written += self.encode_bytes(tci_type.as_slice())?;
        proof {
            lemma_wrote_trans(
                w0,
                w11,
                *self,
                prefix + seq![0x89u8] + len_field(spec_u32_be(node.tci_type).len() as int),
                spec_u32_be(node.tci_type),
            );
            assert(prefix + seq![0x89u8] + len_field(spec_u32_be(node.tci_type).len() as int)
                + spec_u32_be(node.tci_type) =~= der_tcb_info(*node));
        }
        Ok(bytes_written)
    }

    /// Size of the tcg-dice-MultiTcbInfo extension, including the extension
    /// OID and critical flag; if `tagged`, includes the tag and size fields.
    pub fn get_multi_tcb_info_size(measurements: &MeasurementData, tagged: bool) -> (r: Result<
        usize,
        DpeErrorCode,
    >)
        requires
            measurements.wf(),
        ensures
            match r {
                Ok(n) => {
                    &&& (if tagged {
                        multi_fits(measurements.tci_nodes@)
                    } else {
                        multi_inner_fits(measurements.tci_nodes@)
                    })
                    &&& n == if tagged {
                        der_multi_tcb_info(measurements.tci_nodes@).len()
                    } else {
                        spec_multi_body(measurements.tci_nodes@).len()
                    }
                },
                Err(e) => e == DpeErrorCode::InternalError && !(if tagged {
                    multi_fits(measurements.tci_nodes@)
                } else {
                    multi_inner_fits(measurements.tci_nodes@)
                }),
            },
    {
        let ghost nodes = measurements.tci_nodes@;
        if measurements.tci_nodes.len() == 0 {
            return Err(DpeErrorCode::InternalError);
        }
        proof {
            lemma_tcb_list_len(nodes);
            lemma_tcb_info_parts(nodes[0]);
            lemma_multi_def(nodes);
            crate::der::lemma_tlv_len(SEQUENCE_OF_TAG, der_tcb_list(nodes));
            crate::der::lemma_tlv_len(OID_TAG, spec_multi_tcbinfo_oid());
            crate::der::lemma_tlv_len(BOOL_TAG, seq![0xFFu8]);
            crate::der::lemma_tlv_len(OCTET_STRING_TAG, spec_multi_octet_body(nodes));
            crate::der::lemma_tlv_len(SEQUENCE_TAG, spec_multi_body(nodes));
        }
        let node_size = Self::get_tcb_info_size(&measurements.tci_nodes[0], true)?;

        // The list length is the node count times one node's size; reject
        // counts whose product would overrun the length-field limit.
        if measurements.tci_nodes.len() > 65535 / node_size {
            proof {
                let n = nodes.len() as int;
                let l = der_tcb_info(nodes[0]).len() as int;
                let q = 65535int / l;
                vstd::arithmetic::div_mod::lemma_fundamental_div_mod(65535int, l);
                assert(n >= q + 1 && 65535 == l * q + 65535int % l && 0 <= 65535int % l < l ==> n
                    * l > 65535) by (nonlinear_arith);
            }
            return Err(DpeErrorCode::InternalError);
        }
        proof {
            let n = nodes.len() as int;
            let l = der_tcb_info(nodes[0]).len() as int;
            let q = 65535int / l;
            vstd::arithmetic::div_mod::lemma_fundamental_div_mod(65535int, l);
            assert(0 <= n <= q && 65535 == l * q + 65535int % l && 0 <= 65535int % l < l && l >= 0
                ==> n * l <= 65535) by (nonlinear_arith);
        }

        // Size of the concatenated tcb infos.
        let tcb_infos_size = measurements.tci_nodes.len() * node_size;

        // Size of the tcb infos including the SEQUENCE OF tag and size.
        let multi_tcb_info_size = Self::get_structure_size(tcb_infos_size, true)?;

        let oid = Self::multi_tcbinfo_oid();
        let size = Self::get_structure_size(oid.len(), true)?  // Extension OID
             + Self::get_structure_size(1, true)?  // Critical bool
             + Self::get_structure_size(multi_tcb_info_size, true)?;  // OCTET STRING

        Self::get_structure_size(size, tagged)
    }

    /// Encode the tcg-dice-MultiTcbInfo extension: extension OID, critical
    /// TRUE, and an OCTET STRING holding the SEQUENCE OF TcbInfo.
    #[verifier::loop_isolation(false)]
    #[verifier::rlimit(100)]
    pub fn encode_multi_tcb_info(&mut self, measurements: &MeasurementData) -> (r: Result<
        usize,
        DpeErrorCode,
    >)
        requires
            old(self).wf(),
            measurements.wf(),
        ensures
            final(self).wf(),
            final(self).certificate@.len() == old(self).certificate@.len(),
            old(self).offset <= final(self).offset,
            measurements.tci_nodes@.len() == 0 ==> r == Err::<usize, DpeErrorCode>(DpeErrorCode::InternalError)
                && *final(self) == *old(self),
            match r {
                Ok(n) => {
                    &&& multi_fits(measurements.tci_nodes@)
                    &&& n == der_multi_tcb_info(measurements.tci_nodes@).len()
                    &&& wrote(
                        *old(self),
                        *final(self),
                        der_multi_tcb_info(measurements.tci_nodes@),
                    )
                },
                Err(e) => {
                    &&& (e == DpeErrorCode::InternalError || e == DpeErrorCode::BufferOverflow)
                    &&& (e == DpeErrorCode::InternalError ==> !multi_fits(
                        measurements.tci_nodes@,
                    ))
                    &&& (e == DpeErrorCode::BufferOverflow ==> old(self).cap()
                        < der_multi_tcb_info(measurements.tci_nodes@).len())
                },
            },
    {
        let ghost nodes = measurements.tci_nodes@;
        let multi_tcb_info_size = Self::get_multi_tcb_info_size(measurements, false)?;
        proof {
            lemma_tcb_list_len(nodes);
            lemma_tcb_info_parts(nodes[0]);
            lemma_multi_def(nodes);
            crate::der::lemma_tlv_len(SEQUENCE_OF_TAG, der_tcb_list(nodes));
            crate::der::lemma_tlv_len(OID_TAG, spec_multi_tcbinfo_oid());
            crate::der::lemma_tlv_len(BOOL_TAG, seq![0xFFu8]);
            crate::der::lemma_tlv_len(OCTET_STRING_TAG, spec_multi_octet_body(nodes));
            crate::der::lemma_tlv_len(SEQUENCE_TAG, spec_multi_body(nodes));
        }

        // Encode the Extension.
        let ghost w0 = *self;
        let mut bytes_written = self.encode_byte(SEQUENCE_TAG)?;
        let ghost w1 = *self;
        bytes_written += self.encode_size_field(multi_tcb_info_size)?;
        proof {
            lemma_wrote_trans(
                w0,
                w1,
                *self,
                seq![SEQUENCE_TAG],
                len_field(spec_multi_body(nodes).len() as int),
            );
        }
        let ghost prefix = seq![SEQUENCE_TAG] + len_field(spec_multi_body(nodes).len() as int);
        let oid = Self::multi_tcbinfo_oid();
        let ghost w2 = *self;
        bytes_written += self.encode_oid(oid.as_slice())?;
        proof {
            lemma_wrote_trans(w0, w2, *self, prefix, der_oid(spec_multi_tcbinfo_oid()));
        }
        let ghost prefix = prefix + der_oid(spec_multi_tcbinfo_oid());

        let ghost w3 = *self;
        bytes_written += self.encode_byte(BOOL_TAG)?;
        proof {
            lemma_wrote_trans(w0, w3, *self, prefix, seq![BOOL_TAG]);
        }
        let ghost w4 = *self;
        bytes_written += self.encode_size_field(1)?;
        proof {
            lemma_wrote_trans(w0, w4, *self, prefix + seq![BOOL_TAG], len_field(1));
        }
        // Mark the extension as critical.
        let ghost w5 = *self;
        bytes_written += self.encode_byte(0xFF)?;
        proof {
            lemma_wrote_trans(w0, w5, *self, prefix + seq![BOOL_TAG] + len_field(1), seq![0xFFu8]);
            assert(prefix + seq![BOOL_TAG] + len_field(1) + seq![0xFFu8] =~= prefix + tlv(
                BOOL_TAG,
                seq![0xFFu8],
            ));
        }
        let ghost prefix = prefix + tlv(BOOL_TAG, seq![0xFFu8]);

        let node_size = Self::get_tcb_info_size(&measurements.tci_nodes[0], true)?;
        let tcb_infos_size = node_size * measurements.tci_nodes.len();
        let ghost w6 = *self;
        bytes_written += self.encode_byte(OCTET_STRING_TAG)?;
        proof {
            lemma_wrote_trans(w0, w6, *self, prefix, seq![OCTET_STRING_TAG]);
        }
        let ghost w7 = *self;
        bytes_written += self.encode_size_field(Self::get_structure_size(tcb_infos_size, true)?)?;
        proof {
            lemma_wrote_trans(
                w0,
                w7,
                *self,
                prefix + seq![OCTET_STRING_TAG],
                len_field(spec_multi_octet_body(nodes).len() as int),
            );
        }
        let ghost prefix = prefix + seq![OCTET_STRING_TAG] + len_field(
            spec_multi_octet_body(nodes).len() as int,
        );

        // Encode the MultiTcbInfo SEQUENCE OF.
        let ghost w8 = *self;
        bytes_written += self.encode_byte(SEQUENCE_OF_TAG)?;
        proof {
            lemma_wrote_trans(w0, w8, *self, prefix, seq![SEQUENCE_OF_TAG]);
        }
        let ghost w9 = *self;
        bytes_written += self.encode_size_field(tcb_infos_size)?;
        proof {
            lemma_wrote_trans(
                w0,
                w9,
                *self,
                prefix + seq![SEQUENCE_OF_TAG],
                len_field(der_tcb_list(nodes).len() as int),
            );
        }
        let ghost prefix = prefix + seq![SEQUENCE_OF_TAG] + len_field(
            der_tcb_list(nodes).len() as int,
        );

        // Encode the tcg-dice-TcbInfos in order.
        let mut idx: usize = 0;
        while idx < measurements.tci_nodes.len()
            invariant
                idx <= nodes.len(),
                wrote(w0, *self, prefix + der_tcb_list(nodes.take(idx as int))),
                bytes_written == prefix.len() + der_tcb_list(nodes.take(idx as int)).len(),
            decreases nodes.len() - idx,
        {
            proof {
                assert(forall|i: int|
                    0 <= i < idx ==> #[trigger] nodes.take(idx as int)[i] == nodes[i]);
                lemma_tcb_list_len(nodes.take(idx as int));
                if idx > 0 {
                    assert(nodes.take(idx as int)[0] == nodes[0]);
                }
                lemma_tcb_info_len_eq(nodes[idx as int], nodes[0]);
                let n = nodes.len() as int;
                let l = der_tcb_info(nodes[0]).len() as int;
                assert(l >= 0);
                assert(0 <= idx && idx < n && l >= 0 ==> idx * l + l <= n * l)
                    by (nonlinear_arith);
            }
            let node = &measurements.tci_nodes[idx];
            let ghost wl = *self;
            bytes_written += self.encode_tcb_info(node)?;
            proof {
                assert(nodes.take(idx + 1).drop_last() =~= nodes.take(idx as int));
                assert(nodes.take(idx + 1).last() == nodes[idx as int]);
                lemma_wrote_trans(
                    w0,
                    wl,
                    *self,
                    prefix + der_tcb_list(nodes.take(idx as int)),
                    der_tcb_info(nodes[idx as int]),
                );
                assert(prefix + der_tcb_list(nodes.take(idx as int)) + der_tcb_info(
                    nodes[idx as int],
                ) =~= prefix + der_tcb_list(nodes.take(idx + 1)));
            }
            idx += 1;
        }
        proof {
            assert(nodes.take(nodes.len() as int) =~= nodes);
            assert(prefix + der_tcb_list(nodes) =~= der_multi_tcb_info(nodes));
        }
        Ok(bytes_written)
    }

    /// Size of the TBS Extensions field; if `tagged`, includes the explicit
    /// `[3]` wrapping's tag and size fields.
    pub fn get_extensions_size(measurements: &MeasurementData, tagged: bool) -> (r: Result<
        usize,
        DpeErrorCode,
    >)
        requires
            measurements.wf(),
        ensures
            match r {
                Ok(n) => {
                    &&& (if tagged {
                        extensions_fits(measurements.tci_nodes@)
                    } else {
                        extensions_inner_fits(measurements.tci_nodes@)
                    })
                    &&& n == if tagged {
                        der_extensions(measurements.tci_nodes@).len()
                    } else {
                        spec_extensions_body(measurements.tci_nodes@).len()
                    }
                },
                Err(e) => e == DpeErrorCode::InternalError && !(if tagged {
                    extensions_fits(measurements.tci_nodes@)
                } else {
                    extensions_inner_fits(measurements.tci_nodes@)
                }),
            },
    {
        let ghost nodes = measurements.tci_nodes@;
        proof {
            lemma_extensions_def(nodes);
            crate::der::lemma_tlv_len(SEQUENCE_OF_TAG, der_multi_tcb_info(nodes));
            crate::der::lemma_tlv_len(0xA3u8, spec_extensions_body(nodes));
        }
        let mut size = Self::get_multi_tcb_info_size(measurements, true)?;

        // The Extensions field has an explicit encoding, so always include
        // the inner SEQUENCE OF tag.
        size = Self::get_structure_size(size, true)?;

        Self::get_structure_size(size, tagged)
    }

    /// Encode the explicit `[3]` Extensions field holding the single
    /// MultiTcbInfo extension.
    pub fn encode_extensions(&mut self, measurements: &MeasurementData) -> (r: Result<
        usize,
        DpeErrorCode,
    >)
        requires
            old(self).wf(),
            measurements.wf(),
        ensures
            final(self).wf(),
            final(self).certificate@.len() == old(self).certificate@.len(),
            old(self).offset <= final(self).offset,
            measurements.tci_nodes@.len() == 0 ==> r == Err::<usize, DpeErrorCode>(DpeErrorCode::InternalError)
                && *final(self) == *old(self),
            match r {
                Ok(n) => {
                    &&& extensions_fits(measurements.tci_nodes@)
                    &&& n == der_extensions(measurements.tci_nodes@).len()
                    &&& wrote(*old(self), *final(self), der_extensions(measurements.tci_nodes@))
                },
                Err(e) => {
                    &&& (e == DpeErrorCode::InternalError || e == DpeErrorCode::BufferOverflow)
                    &&& (e == DpeErrorCode::InternalError ==> !extensions_fits(
                        measurements.tci_nodes@,
                    ))
                    &&& (e == DpeErrorCode::BufferOverflow ==> old(self).cap() < der_extensions(
                        measurements.tci_nodes@,
                    ).len())
                },
            },
    {
        let ghost nodes = measurements.tci_nodes@;
        proof {
            lemma_extensions_def(nodes);
            crate::der::lemma_tlv_len(SEQUENCE_OF_TAG, der_multi_tcb_info(nodes));
            crate::der::lemma_tlv_len(0xA3u8, spec_extensions_body(nodes));
            assert((PRIVATE | CONSTRUCTED | 0x03) == 0xA3u8) by (bit_vector);
        }
        // Extensions is EXPLICIT field number 3.
        let ext_size = Self::get_extensions_size(measurements, false)?;
        let ghost w0 = *self;
        let mut bytes_written = self.encode_byte(PRIVATE | CONSTRUCTED | 0x03)?;
        let ghost w1 = *self;
        bytes_written += self.encode_size_field(ext_size)?;
        proof {
            lemma_wrote_trans(
                w0,
                w1,
                *self,
                seq![0xA3u8],
                len_field(spec_extensions_body(nodes).len() as int),
            );
        }
        let ghost prefix = seq![0xA3u8] + len_field(spec_extensions_body(nodes).len() as int);

        // SEQUENCE OF Extension.
        let ghost w2 = *self;
        bytes_written += self.encode_byte(SEQUENCE_OF_TAG)?;
        proof {
            lemma_wrote_trans(w0, w2, *self, prefix, seq![SEQUENCE_OF_TAG]);
        }
        let ghost w3 = *self;
        bytes_written += self.encode_size_field(
            Self::get_multi_tcb_info_size(measurements, true)?,
        )?;
        proof {
            lemma_wrote_trans(
                w0,
                w3,
                *self,
                prefix + seq![SEQUENCE_OF_TAG],
                len_field(der_multi_tcb_info(nodes).len() as int),
            );
        }
        let ghost prefix = prefix + seq![SEQUENCE_OF_TAG] + len_field(
            der_multi_tcb_info(nodes).len() as int,
        );
        let ghost w4 = *self;
        bytes_written += self.encode_multi_tcb_info(measurements)?;
        proof {
            lemma_wrote_trans(w0, w4, *self, prefix, der_multi_tcb_info(nodes));
            assert(prefix + der_multi_tcb_info(nodes) =~= der_extensions(nodes));
        }
        Ok(bytes_written)
    }

    /// Size of the ASN.1 TBSCertificate structure; if `tagged`, includes
    /// the tag and size fields.
    #[verifier::rlimit(100)]
    #[verifier::spinoff_prover]
    pub fn get_tbs_size(
        serial_number: &[u8],
        issuer_name: &Name,
        subject_name: &Name,
        pubkey: &EcdsaPub,
        measurements: &MeasurementData,
        tagged: bool,
    ) -> (r: Result<usize, DpeErrorCode>)
        requires
            pubkey.wf(),
            measurements.wf(),
            serial_number@.len() < usize::MAX,
        ensures
            match r {
                Ok(n) => {
                    &&& (if tagged {
                        tbs_fits(serial_number@, *issuer_name, *subject_name, *pubkey, *measurements)
                    } else {
                        tbs_inner_fits(serial_number@, *issuer_name, *subject_name, *measurements)
                    })
                    &&& n == if tagged {
                        der_tbs(
                            serial_number@,
                            *issuer_name,
                            *subject_name,
                            *pubkey,
                            *measurements,
                        ).len()
                    } else {
                        spec_tbs_body(
                            serial_number@,
                            *issuer_name,
                            *subject_name,
                            *pubkey,
                            *measurements,
                        ).len()
                    }
                },
                Err(e) => e == DpeErrorCode::InternalError && !(if tagged {
                    tbs_fits(serial_number@, *issuer_name, *subject_name, *pubkey, *measurements)
                } else {
                    tbs_inner_fits(serial_number@, *issuer_name, *subject_name, *measurements)
                }),
            },
    {
        proof {
            lemma_tbs_def(serial_number@, *issuer_name, *subject_name, *pubkey, *measurements);
            lemma_alg_id_def();
            lemma_validity_def();
            lemma_pubkey_def(*pubkey);
            lemma_int_body_suffix(spec_u64_be(X509_V3));
            crate::der::lemma_tlv_len(INTEGER_TAG, int_body(spec_u64_be(X509_V3)));
            crate::der::lemma_tlv_len(OID_TAG, spec_ecdsa_oid());
            crate::der::lemma_tlv_len(OID_TAG, spec_curve_oid());
            crate::der::lemma_tlv_len(SEQUENCE_TAG, spec_alg_id_body());
            crate::der::lemma_tlv_len(GENERALIZE_TIME_TAG, spec_not_before());
            crate::der::lemma_tlv_len(GENERALIZE_TIME_TAG, spec_not_after());
            crate::der::lemma_tlv_len(SEQUENCE_TAG, spec_validity_body());
            crate::der::lemma_tlv_len(OCTET_STRING_TAG, spec_ec_point(*pubkey));
            crate::der::lemma_tlv_len(BIT_STRING_TAG, spec_pubkey_bitstring_body(*pubkey));
            crate::der::lemma_tlv_len(SEQUENCE_TAG, spec_pubkey_info_body(*pubkey));
            lemma_int_body_suffix(serial_number@);
            crate::der::lemma_tlv_len(INTEGER_TAG, int_body(serial_number@));
            crate::der::lemma_tlv_len(0xA0u8, der_integer(spec_u64_be(X509_V3)));
            crate::der::lemma_tlv_len(SEQUENCE_TAG, spec_alg_id_body());
            crate::der::lemma_tlv_len(SEQUENCE_OF_TAG, spec_rdn_body(*issuer_name));
            crate::der::lemma_tlv_len(SEQUENCE_OF_TAG, spec_rdn_body(*subject_name));
            crate::der::lemma_tlv_len(SEQUENCE_TAG, spec_validity_body());
            crate::der::lemma_tlv_len(SEQUENCE_TAG, spec_pubkey_info_body(*pubkey));
            crate::der::lemma_tlv_len(0xA3u8, spec_extensions_body(measurements.tci_nodes@));
            crate::der::lemma_tlv_len(
                SEQUENCE_TAG,
                spec_tbs_body(serial_number@, *issuer_name, *subject_name, *pubkey, *measurements),
            );
        }
        let tbs_size = Self::get_version_size(true)? + Self::get_integer_bytes_size(
            serial_number,
            true,
        )? + Self::get_ecc_alg_id_size(true)? + Self::get_rdn_size(issuer_name, true)?
            + Self::get_validity_size(true)? + Self::get_rdn_size(subject_name, true)?
            + Self::get_ecdsa_subject_pubkey_info_size(pubkey, true)? + Self::get_extensions_size(
            measurements,
            true,
        )?;

        Self::get_structure_size(tbs_size, tagged)
    }

    /// Encode the TBSCertificate: version, serialNumber, signature
    /// algorithm, issuer, validity, subject, subjectPublicKeyInfo and the
    /// extensions, in that order, with no unique identifiers.
    #[verifier::rlimit(100)]
    #[verifier::spinoff_prover]
    pub fn encode_ecdsa_tbs(
        &mut self,
        serial_number: &[u8],
        issuer_name: &Name,
        subject_name: &Name,
        pubkey: &EcdsaPub,
        measurements: &MeasurementData,
    ) -> (r: Result<usize, DpeErrorCode>)
        requires
            old(self).wf(),
            pubkey.wf(),
            measurements.wf(),
            serial_number@.len() < usize::MAX,
        ensures
            final(self).wf(),
            final(self).certificate@.len() == old(self).certificate@.len(),
            old(self).offset <= final(self).offset,
            measurements.tci_nodes@.len() == 0 ==> r == Err::<usize, DpeErrorCode>(
                DpeErrorCode::InternalError,
            ) && *final(self) == *old(self),
            tbs_fits(serial_number@, *issuer_name, *subject_name, *pubkey, *measurements) && old(
                self,
            ).cap() >= der_tbs(
                serial_number@,
                *issuer_name,
                *subject_name,
                *pubkey,
                *measurements,
            ).len() ==> r is Ok,
            tbs_fits(serial_number@, *issuer_name, *subject_name, *pubkey, *measurements) && old(
                self,
            ).cap() < der_tbs(
                serial_number@,
                *issuer_name,
                *subject_name,
                *pubkey,
                *measurements,
            ).len() ==> r == Err::<usize, DpeErrorCode>(DpeErrorCode::BufferOverflow),
            match r {
                Ok(n) => {
                    &&& tbs_fits(
                        serial_number@,
                        *issuer_name,
                        *subject_name,
                        *pubkey,
                        *measurements,
                    )
                    &&& n == der_tbs(
                        serial_number@,
                        *issuer_name,
                        *subject_name,
                        *pubkey,
                        *measurements,
                    ).len()
                    &&& wrote(
                        *old(self),
                        *final(self),
                        der_tbs(
                            serial_number@,
                            *issuer_name,
                            *subject_name,
                            *pubkey,
                            *measurements,
                        ),
                    )
                },
                Err(e) => {
                    &&& (e == DpeErrorCode::InternalError || e == DpeErrorCode::BufferOverflow)
                    &&& (e == DpeErrorCode::InternalError ==> !tbs_fits(
                        serial_number@,
                        *issuer_name,
                        *subject_name,
                        *pubkey,
                        *measurements,
                    ))
                    &&& (e == DpeErrorCode::BufferOverflow ==> old(self).cap() < der_tbs(
                        serial_number@,
                        *issuer_name,
                        *subject_name,
                        *pubkey,
                        *measurements,
                    ).len())
                },
            },
    {
        let ghost tbs_body = spec_tbs_body(
            serial_number@,
            *issuer_name,
            *subject_name,
            *pubkey,
            *measurements,
        );
        proof {
            lemma_tbs_def(serial_number@, *issuer_name, *subject_name, *pubkey, *measurements);
            crate::der::lemma_tlv_len(SEQUENCE_TAG, tbs_body);
        }
        let tbs_size = Self::get_tbs_size(
            serial_number,
            issuer_name,
            subject_name,
            pubkey,
            measurements,
            false,
        )?;

        // TBS sequence.
        let ghost w0 = *self;
        let mut bytes_written = self.encode_tag_field(SEQUENCE_TAG)?;
        let ghost w1 = *self;
        bytes_written += self.encode_size_field(tbs_size)?;
        proof {
            lemma_wrote_trans(w0, w1, *self, seq![SEQUENCE_TAG], len_field(tbs_body.len() as int));
        }
        let ghost prefix = seq![SEQUENCE_TAG] + len_field(tbs_body.len() as int);

        // version
        let ghost w2 = *self;
        bytes_written += self.encode_version()?;
        proof {
            lemma_wrote_trans(w0, w2, *self, prefix, der_version());
        }
        let ghost prefix = prefix + der_version();

        // serialNumber
        let ghost w3 = *self;
        bytes_written += self.encode_integer_bytes(serial_number)?;
        proof {
            lemma_wrote_trans(w0, w3, *self, prefix, der_integer(serial_number@));
        }
        let ghost prefix = prefix + der_integer(serial_number@);

        // signature
        let ghost w4 = *self;
        bytes_written += self.encode_ecc_alg_id()?;
        proof {
            lemma_wrote_trans(w0, w4, *self, prefix, der_alg_id());
        }
        let ghost prefix = prefix + der_alg_id();

        // issuer
        let ghost w5 = *self;
        bytes_written += self.encode_rdn(issuer_name)?;
        proof {
            lemma_wrote_trans(w0, w5, *self, prefix, der_rdn(*issuer_name));
        }
        let ghost prefix = prefix + der_rdn(*issuer_name);

        // validity
        let ghost w6 = *self;
        bytes_written += self.encode_validity()?;
        proof {
            lemma_wrote_trans(w0, w6, *self, prefix, der_validity());
        }
        let ghost prefix = prefix + der_validity();

        // subject
        let ghost w7 = *self;
        bytes_written += self.encode_rdn(subject_name)?;
        proof {
            lemma_wrote_trans(w0, w7, *self, prefix, der_rdn(*subject_name));
        }
        let ghost prefix = prefix + der_rdn(*subject_name);

        // subjectPublicKeyInfo
        let ghost w8 = *self;
        bytes_written += self.encode_ecdsa_subject_pubkey_info(pubkey)?;
        proof {
            lemma_wrote_trans(w0, w8, *self, prefix, der_pubkey_info(*pubkey));
        }
        let ghost prefix = prefix + der_pubkey_info(*pubkey);

        // extensions
        let ghost w9 = *self;
        bytes_written += self.encode_extensions(measurements)?;
        proof {
            lemma_wrote_trans(w0, w9, *self, prefix, der_extensions(measurements.tci_nodes@));
            assert(prefix + der_extensions(measurements.tci_nodes@) =~= der_tbs(
                serial_number@,
                *issuer_name,
                *subject_name,
                *pubkey,
                *measurements,
            ));
        }
        Ok(bytes_written)
    }

    /// Encode a complete ECDSA X.509 certificate: the TBSCertificate, the
    /// signature AlgorithmIdentifier, and the signatureValue BIT STRING.
    ///
    /// The whole encoding succeeds exactly when the structures fit the
    /// length-field limit and the buffer has room for the full certificate;
    /// a too-small buffer is reported as `BufferOverflow`, an empty
    /// measurement set as `InternalError`.
    #[verifier::rlimit(100)]
    #[verifier::spinoff_prover]
    pub fn encode_ecdsa_certificate(
        &mut self,
        serial_number: &[u8],
        issuer_name: &Name,
        subject_name: &Name,
        pubkey: &EcdsaPub,
        measurements: &MeasurementData,
        sig: &EcdsaSignature,
    ) -> (r: Result<usize, DpeErrorCode>)
        requires
            old(self).wf(),
            pubkey.wf(),
            sig.wf(),
            measurements.wf(),
            serial_number@.len() < usize::MAX,
        ensures
            final(self).wf(),
            final(self).certificate@.len() == old(self).certificate@.len(),
            old(self).offset <= final(self).offset,
            measurements.tci_nodes@.len() == 0 ==> r == Err::<usize, DpeErrorCode>(
                DpeErrorCode::InternalError,
            ) && *final(self) == *old(self),
            cert_fits(serial_number@, *issuer_name, *subject_name, *pubkey, *measurements, *sig)
                && old(self).cap() >= der_cert(
                serial_number@,
                *issuer_name,
                *subject_name,
                *pubkey,
                *measurements,
                *sig,
            ).len() ==> r is Ok,
            cert_fits(serial_number@, *issuer_name, *subject_name, *pubkey, *measurements, *sig)
                && old(self).cap() < der_cert(
                serial_number@,
                *issuer_name,
                *subject_name,
                *pubkey,
                *measurements,
                *sig,
            ).len() ==> r == Err::<usize, DpeErrorCode>(DpeErrorCode::BufferOverflow),
            match r {
                Ok(n) => {
                    &&& cert_fits(
                        serial_number@,
                        *issuer_name,
                        *subject_name,
                        *pubkey,
                        *measurements,
                        *sig,
                    )
                    &&& n == der_cert(
                        serial_number@,
                        *issuer_name,
                        *subject_name,
                        *pubkey,
                        *measurements,
                        *sig,
                    ).len()
                    &&& wrote(
                        *old(self),
                        *final(self),
                        der_cert(
                            serial_number@,
                            *issuer_name,
                            *subject_name,
                            *pubkey,
                            *measurements,
                            *sig,
                        ),
                    )
                },
                Err(e) => {
                    &&& (e == DpeErrorCode::InternalError || e == DpeErrorCode::BufferOverflow)
                    &&& (e == DpeErrorCode::InternalError ==> !cert_fits(
                        serial_number@,
                        *issuer_name,
                        *subject_name,
                        *pubkey,
                        *measurements,
                        *sig,
                    ))
                    &&& (e == DpeErrorCode::BufferOverflow ==> old(self).cap() < der_cert(
                        serial_number@,
                        *issuer_name,
                        *subject_name,
                        *pubkey,
                        *measurements,
                        *sig,
                    ).len())
                },
            },
    {
        let ghost cert_body = spec_cert_body(
            serial_number@,
            *issuer_name,
            *subject_name,
            *pubkey,
            *measurements,
            *sig,
        );
        proof {
            lemma_cert_def(
                serial_number@,
                *issuer_name,
                *subject_name,
                *pubkey,
                *measurements,
                *sig,
            );
            lemma_alg_id_def();
            lemma_sig_def(*sig);
            lemma_int_body_suffix(sig.r@);
            lemma_int_body_suffix(sig.s@);
            crate::der::lemma_tlv_len(OID_TAG, spec_ecdsa_oid());
            crate::der::lemma_tlv_len(OID_TAG, spec_curve_oid());
            crate::der::lemma_tlv_len(SEQUENCE_TAG, spec_alg_id_body());
            crate::der::lemma_tlv_len(INTEGER_TAG, int_body(sig.r@));
            crate::der::lemma_tlv_len(INTEGER_TAG, int_body(sig.s@));
            crate::der::lemma_tlv_len(SEQUENCE_TAG, spec_sig_seq_body(*sig));
            crate::der::lemma_tlv_len(BIT_STRING_TAG, spec_sig_bitstring_body(*sig));
            crate::der::lemma_tlv_len(
                SEQUENCE_TAG,
                spec_tbs_body(serial_number@, *issuer_name, *subject_name, *pubkey, *measurements),
            );
            crate::der::lemma_tlv_len(SEQUENCE_TAG, cert_body);
        }
        let tbs_size = Self::get_tbs_size(
            serial_number,
            issuer_name,
            subject_name,
            pubkey,
            measurements,
            true,
        )?;
        let cert_size = tbs_size + Self::get_ecc_alg_id_size(true)?
            + Self::get_ecdsa_signature_size(sig, true)?;

        // Certificate sequence.
        let ghost w0 = *self;
        let mut bytes_written = self.encode_tag_field(SEQUENCE_TAG)?;
        let ghost w1 = *self;
        bytes_written += self.encode_size_field(cert_size)?;
        proof {
            lemma_wrote_trans(w0, w1, *self, seq![SEQUENCE_TAG], len_field(cert_body.len() as int));
        }
        let ghost prefix = seq![SEQUENCE_TAG] + len_field(cert_body.len() as int);

        // TBS
        let ghost w2 = *self;
        bytes_written += self.encode_ecdsa_tbs(
            serial_number,
            issuer_name,
            subject_name,
            pubkey,
            measurements,
        )?;
        proof {
            lemma_wrote_trans(
                w0,
                w2,
                *self,
                prefix,
                der_tbs(serial_number@, *issuer_name, *subject_name, *pubkey, *measurements),
            );
        }
        let ghost prefix = prefix + der_tbs(
            serial_number@,
            *issuer_name,
            *subject_name,
            *pubkey,
            *measurements,
        );

        // Alg ID
        let ghost w3 = *self;
        bytes_written += self.encode_ecc_alg_id()?;
        proof {
            lemma_wrote_trans(w0, w3, *self, prefix, der_alg_id());
        }
        let ghost prefix = prefix + der_alg_id();

        // Signature
        let ghost w4 = *self;
        bytes_written += self.encode_ecdsa_signature(sig)?;
        proof {
            lemma_wrote_trans(w0, w4, *self, prefix, der_ecdsa_signature(*sig));
            assert(prefix + der_ecdsa_signature(*sig) =~= der_cert(
                serial_number@,
                *issuer_name,
                *subject_name,
                *pubkey,
                *measurements,
                *sig,
            ));
        }
        Ok(bytes_written)
    }

}

/// OID 1.2.840.10045.4.3.2 (ECDSA with SHA-256) or 1.2.840.10045.4.3.3
/// (ECDSA with SHA-384), as pre-encoded DER body bytes.
pub open spec fn spec_ecdsa_oid() -> Seq<u8> {
    match DPE_PROFILE {
        DpeProfile::P256Sha256 => seq![0x2Au8, 0x86, 0x48, 0xCE, 0x3D, 0x04, 0x03, 0x02],
        DpeProfile::P384Sha384 => seq![0x2Au8, 0x86, 0x48, 0xCE, 0x3D, 0x04, 0x03, 0x03],
    }
}

/// OID 1.2.840.10045.3.1.7 (P-256) or 1.3.132.0.34 (P-384).
pub open spec fn spec_curve_oid() -> Seq<u8> {
    match DPE_PROFILE {
        DpeProfile::P256Sha256 => seq![0x2Au8, 0x86, 0x48, 0xCE, 0x3D, 0x03, 0x01, 0x07],
        DpeProfile::P384Sha384 => seq![0x2Bu8, 0x81, 0x04, 0x00, 0x22],
    }
}

/// OID 2.16.840.1.101.3.4.2.1 (SHA-256) or 2.16.840.1.101.3.4.2.2 (SHA-384).
pub open spec fn spec_hash_oid() -> Seq<u8> {
    match DPE_PROFILE {
        DpeProfile::P256Sha256 => seq![0x60u8, 0x86, 0x48, 0x01, 0x65, 0x03, 0x04, 0x02, 0x01],
        DpeProfile::P384Sha384 => seq![0x60u8, 0x86, 0x48, 0x01, 0x65, 0x03, 0x04, 0x02, 0x02],
    }
}

/// OID 2.5.4.3 (id-at-commonName).
pub open spec fn spec_rdn_common_name_oid() -> Seq<u8> {
    seq![0x55u8, 0x04, 0x03]
}

/// OID 2.5.4.5 (id-at-serialNumber).
pub open spec fn spec_rdn_serialnumber_oid() -> Seq<u8> {
    seq![0x55u8, 0x04, 0x05]
}

/// OID 2.23.133.5.4.5 (tcg-dice-MultiTcbInfo).
pub open spec fn spec_multi_tcbinfo_oid() -> Seq<u8> {
    seq![0x67u8, 0x81, 0x05, 0x05, 0x04, 0x05]
}

/// GeneralizedTime "20230227000000Z": all DPE certificates are valid from
/// this fixed date.
pub open spec fn spec_not_before() -> Seq<u8> {
    seq![0x32u8, 0x30, 0x32, 0x33, 0x30, 0x32, 0x32, 0x37, 0x30, 0x30, 0x30, 0x30, 0x30, 0x30, 0x5A]
}

/// GeneralizedTime "99991231235959Z": DPE certificates never expire.
pub open spec fn spec_not_after() -> Seq<u8> {
    seq![0x39u8, 0x39, 0x39, 0x39, 0x31, 0x32, 0x33, 0x31, 0x32, 0x33, 0x35, 0x39, 0x35, 0x39, 0x5A]
}

/// The DER OBJECT IDENTIFIER TLV around pre-encoded body bytes.
pub open spec fn der_oid(oid: Seq<u8>) -> Seq<u8> {
    tlv(OID_TAG, oid)
}

/// The DER PrintableString TLV around its text bytes.
pub open spec fn der_printable(s: Seq<u8>) -> Seq<u8> {
    tlv(PRINTABLE_STRING_TAG, s)
}

/// The big-endian bytes of a 64-bit integer.
pub open spec fn spec_u64_be(x: u64) -> Seq<u8> {
    seq![
        ((x >> 56) & 0xff) as u8,
        ((x >> 48) & 0xff) as u8,
        ((x >> 40) & 0xff) as u8,
        ((x >> 32) & 0xff) as u8,
        ((x >> 24) & 0xff) as u8,
        ((x >> 16) & 0xff) as u8,
        ((x >> 8) & 0xff) as u8,
        (x & 0xff) as u8,
    ]
}

/// Big-endian bytes of a 64-bit integer.
fn u64_be_bytes(x: u64) -> (r: Vec<u8>)
    ensures
        r@ == spec_u64_be(x),
{
    let r: Vec<u8> = vec![
        ((x >> 56) & 0xff) as u8,
        ((x >> 48) & 0xff) as u8,
        ((x >> 40) & 0xff) as u8,
        ((x >> 32) & 0xff) as u8,
        ((x >> 24) & 0xff) as u8,
        ((x >> 16) & 0xff) as u8,
        ((x >> 8) & 0xff) as u8,
        (x & 0xff) as u8,
    ];
    proof {
        assert(r@ =~= spec_u64_be(x));
    }
    r
}

/// Body of the signing AlgorithmIdentifier: ECDSA-with-hash OID then
/// named-curve OID.
#[verifier::opaque]
pub open spec fn spec_alg_id_body() -> Seq<u8> {
    der_oid(spec_ecdsa_oid()) + der_oid(spec_curve_oid())
}

pub open spec fn der_alg_id() -> Seq<u8> {
    tlv(SEQUENCE_TAG, spec_alg_id_body())
}

/// Body of Validity: the two fixed GeneralizedTime fields.
#[verifier::opaque]
pub open spec fn spec_validity_body() -> Seq<u8> {
    tlv(GENERALIZE_TIME_TAG, spec_not_before()) + tlv(GENERALIZE_TIME_TAG, spec_not_after())
}

pub open spec fn der_validity() -> Seq<u8> {
    tlv(SEQUENCE_TAG, spec_validity_body())
}

/// An uncompressed EC point: `0x04 || x || y`.
#[verifier::opaque]
pub open spec fn spec_ec_point(pubkey: EcdsaPub) -> Seq<u8> {
    seq![0x04u8] + pubkey.x@ + pubkey.y@
}

/// Body of the subjectPublicKey BIT STRING: zero unused bits, then an OCTET
/// STRING holding the uncompressed point (the shape this encoder emits).
#[verifier::opaque]
pub open spec fn spec_pubkey_bitstring_body(pubkey: EcdsaPub) -> Seq<u8> {
    seq![0u8] + tlv(OCTET_STRING_TAG, spec_ec_point(pubkey))
}

#[verifier::opaque]
pub open spec fn spec_pubkey_info_body(pubkey: EcdsaPub) -> Seq<u8> {
    der_alg_id() + tlv(BIT_STRING_TAG, spec_pubkey_bitstring_body(pubkey))
}

pub open spec fn der_pubkey_info(pubkey: EcdsaPub) -> Seq<u8> {
    tlv(SEQUENCE_TAG, spec_pubkey_info_body(pubkey))
}

/// Body of ECDSA-Sig-Value: r then s as DER INTEGERs.
#[verifier::opaque]
pub open spec fn spec_sig_seq_body(sig: EcdsaSignature) -> Seq<u8> {
    der_integer(sig.r@) + der_integer(sig.s@)
}

/// Body of the signatureValue BIT STRING: zero unused bits, then the
/// ECDSA-Sig-Value SEQUENCE.
#[verifier::opaque]
pub open spec fn spec_sig_bitstring_body(sig: EcdsaSignature) -> Seq<u8> {
    seq![0u8] + tlv(SEQUENCE_TAG, spec_sig_seq_body(sig))
}

pub open spec fn der_ecdsa_signature(sig: EcdsaSignature) -> Seq<u8> {
    tlv(BIT_STRING_TAG, spec_sig_bitstring_body(sig))
}

/// The explicit `[0]` version field wrapping INTEGER 2 (X.509 v3).
pub open spec fn der_version() -> Seq<u8> {
    tlv(0xA0u8, der_integer(spec_u64_be(X509_V3)))
}

/// One AttributeTypeAndValue body: attribute OID, then the value as a
/// PrintableString.
#[verifier::opaque]
pub open spec fn spec_attr_body(oid: Seq<u8>, value: Seq<u8>) -> Seq<u8> {
    der_oid(oid) + der_printable(value)
}

/// Body of the RDN SET: the CommonName pair then the SerialNumber pair,
/// each an AttributeTypeAndValue SEQUENCE.
#[verifier::opaque]
pub open spec fn spec_rdn_set_body(name: Name) -> Seq<u8> {
    tlv(SEQUENCE_TAG, spec_attr_body(spec_rdn_common_name_oid(), name.cn@)) + tlv(
        SEQUENCE_TAG,
        spec_attr_body(spec_rdn_serialnumber_oid(), name.serial@),
    )
}

/// Body of the Name SEQUENCE: one SET with the two attribute pairs.
#[verifier::opaque]
pub open spec fn spec_rdn_body(name: Name) -> Seq<u8> {
    tlv(SET_OF_TAG, spec_rdn_set_body(name))
}

pub open spec fn der_rdn(name: Name) -> Seq<u8> {
    tlv(SEQUENCE_OF_TAG, spec_rdn_body(name))
}

/// Every length field strictly inside the Name structure fits the
/// encoder's limit.
pub open spec fn rdn_inner_fits(name: Name) -> bool {
    &&& name.cn@.len() <= MAX_STRUCTURE_SIZE
    &&& name.serial@.len() <= MAX_STRUCTURE_SIZE
    &&& spec_attr_body(spec_rdn_common_name_oid(), name.cn@).len() <= MAX_STRUCTURE_SIZE
    &&& spec_attr_body(spec_rdn_serialnumber_oid(), name.serial@).len() <= MAX_STRUCTURE_SIZE
    &&& spec_rdn_set_body(name).len() <= MAX_STRUCTURE_SIZE
}

/// Every length field of the Name structure, its own included, fits.
pub open spec fn rdn_fits(name: Name) -> bool {
    &&& rdn_inner_fits(name)
    &&& spec_rdn_body(name).len() <= MAX_STRUCTURE_SIZE
}

/// The big-endian bytes of a 32-bit integer.
pub open spec fn spec_u32_be(x: u32) -> Seq<u8> {
    seq![
        ((x >> 24) & 0xff) as u8,
        ((x >> 16) & 0xff) as u8,
        ((x >> 8) & 0xff) as u8,
        (x & 0xff) as u8,
    ]
}

/// The four ASCII bytes "VNDR", the vendorInfo literal of internal nodes.
pub open spec fn spec_vndr_info() -> Seq<u8> {
    seq![0x56u8, 0x4E, 0x44, 0x52]
}

/// The four ASCII bytes "USER", the vendorInfo literal of user nodes.
pub open spec fn spec_user_info() -> Seq<u8> {
    seq![0x55u8, 0x53, 0x45, 0x52]
}

pub open spec fn spec_vendor_info(node: TciNodeData) -> Seq<u8> {
    if node.spec_is_internal() {
        spec_vndr_info()
    } else {
        spec_user_info()
    }
}

/// Body of one FWID: hash algorithm OID, then the digest OCTET STRING.
#[verifier::opaque]
pub open spec fn spec_fwid_body(digest: Seq<u8>) -> Seq<u8> {
    der_oid(spec_hash_oid()) + tlv(OCTET_STRING_TAG, digest)
}

pub open spec fn der_fwid(digest: Seq<u8>) -> Seq<u8> {
    tlv(SEQUENCE_TAG, spec_fwid_body(digest))
}

pub open spec fn fwid_inner_fits(digest: Seq<u8>) -> bool {
    digest.len() <= MAX_STRUCTURE_SIZE
}

pub open spec fn fwid_fits(digest: Seq<u8>) -> bool {
    &&& fwid_inner_fits(digest)
    &&& spec_fwid_body(digest).len() <= MAX_STRUCTURE_SIZE
}

/// Body of the fwids SEQUENCE OF: the current measurement first, then the
/// cumulative one.
#[verifier::opaque]
pub open spec fn spec_fwids_body(node: TciNodeData) -> Seq<u8> {
    der_fwid(node.tci_current.0@) + der_fwid(node.tci_cumulative.0@)
}

/// Body of one tcg-dice-TcbInfo SEQUENCE: implicit `[6]` fwids, implicit
/// `[8]` vendorInfo, implicit `[9]` type.
#[verifier::opaque]
pub open spec fn spec_tcb_info_body(node: TciNodeData) -> Seq<u8> {
    tlv(0xA6u8, spec_fwids_body(node)) + tlv(0x88u8, spec_vendor_info(node)) + tlv(
        0x89u8,
        spec_u32_be(node.tci_type),
    )
}

pub open spec fn der_tcb_info(node: TciNodeData) -> Seq<u8> {
    tlv(SEQUENCE_TAG, spec_tcb_info_body(node))
}

/// All well-formed nodes have TcbInfo encodings of one common length.
pub proof fn lemma_tcb_info_len_eq(a: TciNodeData, b: TciNodeData)
    requires
        a.wf(),
        b.wf(),
    ensures
        der_tcb_info(a).len() == der_tcb_info(b).len(),
{
    lemma_tcb_info_parts(a);
    lemma_tcb_info_parts(b);
}

/// Unfolds the length of one TcbInfo encoding into its parts.
pub proof fn lemma_tcb_info_parts(node: TciNodeData)
    ensures
        spec_fwid_body(node.tci_current.0@).len() == der_oid(spec_hash_oid()).len() + tlv(
            OCTET_STRING_TAG,
            node.tci_current.0@,
        ).len(),
        spec_fwid_body(node.tci_cumulative.0@).len() == der_oid(spec_hash_oid()).len() + tlv(
            OCTET_STRING_TAG,
            node.tci_cumulative.0@,
        ).len(),
        der_fwid(node.tci_current.0@).len() == 1 + size_width(
            spec_fwid_body(node.tci_current.0@).len() as int,
        ) + spec_fwid_body(node.tci_current.0@).len(),
        der_fwid(node.tci_cumulative.0@).len() == 1 + size_width(
            spec_fwid_body(node.tci_cumulative.0@).len() as int,
        ) + spec_fwid_body(node.tci_cumulative.0@).len(),
        spec_fwids_body(node).len() == der_fwid(node.tci_current.0@).len() + der_fwid(
            node.tci_cumulative.0@,
        ).len(),
        spec_vendor_info(node).len() == 4,
        der_tcb_info(node).len() == 1 + size_width(spec_tcb_info_body(node).len() as int)
            + spec_tcb_info_body(node).len(),
        spec_tcb_info_body(node).len() == (1 + size_width(spec_fwids_body(node).len() as int)
            + spec_fwids_body(node).len()) + 6 + 6,
{
    lemma_fwid_def(node.tci_current.0@);
    lemma_fwid_def(node.tci_cumulative.0@);
    lemma_tcb_def(node);
    crate::der::lemma_tlv_len(OID_TAG, spec_hash_oid());
    crate::der::lemma_tlv_len(OCTET_STRING_TAG, node.tci_current.0@);
    crate::der::lemma_tlv_len(OCTET_STRING_TAG, node.tci_cumulative.0@);
    crate::der::lemma_tlv_len(SEQUENCE_TAG, spec_fwid_body(node.tci_current.0@));
    crate::der::lemma_tlv_len(SEQUENCE_TAG, spec_fwid_body(node.tci_cumulative.0@));
    crate::der::lemma_tlv_len(0xA6u8, spec_fwids_body(node));
    crate::der::lemma_tlv_len(0x88u8, spec_vendor_info(node));
    crate::der::lemma_tlv_len(0x89u8, spec_u32_be(node.tci_type));
    crate::der::lemma_tlv_len(SEQUENCE_TAG, spec_tcb_info_body(node));
}

/// Big-endian bytes of a 32-bit integer.
fn u32_be_bytes(x: u32) -> (r: Vec<u8>)
    ensures
        r@ == spec_u32_be(x),
{
    let r: Vec<u8> = vec![
        ((x >> 24) & 0xff) as u8,
        ((x >> 16) & 0xff) as u8,
        ((x >> 8) & 0xff) as u8,
        (x & 0xff) as u8,
    ];
    proof {
        assert(r@ =~= spec_u32_be(x));
    }
    r
}

/// The vendorInfo literal for a node: "VNDR" for internal, "USER" otherwise.
fn vendor_info_bytes(node: &TciNodeData) -> (r: Vec<u8>)
    ensures
        r@ == spec_vendor_info(*node),
{
    let r: Vec<u8> = if node.flag_is_internal() {
        vec![0x56, 0x4E, 0x44, 0x52]
    } else {
        vec![0x55, 0x53, 0x45, 0x52]
    };
    proof {
        assert(r@ =~= spec_vendor_info(*node));
    }
    r
}

/// Concatenated TcbInfo encodings of a node list, in order.
pub open spec fn der_tcb_list(nodes: Seq<TciNodeData>) -> Seq<u8>
    decreases nodes.len(),
{
    if nodes.len() == 0 {
        Seq::empty()
    } else {
        der_tcb_list(nodes.drop_last()) + der_tcb_info(nodes.last())
    }
}

/// Over well-formed nodes the list's length is the node count times the
/// common TcbInfo length.
pub proof fn lemma_tcb_list_len(nodes: Seq<TciNodeData>)
    requires
        forall|i: int| 0 <= i < nodes.len() ==> nodes[i].wf(),
    ensures
        nodes.len() == 0 ==> der_tcb_list(nodes).len() == 0,
        nodes.len() > 0 ==> der_tcb_list(nodes).len() == nodes.len() * der_tcb_info(
            nodes[0],
        ).len(),
    decreases nodes.len(),
{
    if nodes.len() > 0 {
        let rest = nodes.drop_last();
        assert(forall|i: int| 0 <= i < rest.len() ==> rest[i] == nodes[i]);
        assert(forall|i: int| 0 <= i < rest.len() ==> rest[i].wf());
        lemma_tcb_list_len(rest);
        lemma_tcb_info_len_eq(nodes.last(), nodes[0]);
        let l = der_tcb_info(nodes[0]).len() as int;
        let n = nodes.len() as int;
        if rest.len() > 0 {
            assert(rest[0] == nodes[0]);
            assert(der_tcb_list(rest).len() == (n - 1) * l);
        }
        assert(der_tcb_list(nodes).len() == der_tcb_list(rest).len() + l);
        assert((n - 1) * l + l == n * l) by (nonlinear_arith);
    }
}

/// Body of the extnValue OCTET STRING: the SEQUENCE OF TcbInfo.
#[verifier::opaque]
pub open spec fn spec_multi_octet_body(nodes: Seq<TciNodeData>) -> Seq<u8> {
    tlv(SEQUENCE_OF_TAG, der_tcb_list(nodes))
}

/// Body of the Extension SEQUENCE: extension OID, critical TRUE, extnValue.
#[verifier::opaque]
pub open spec fn spec_multi_body(nodes: Seq<TciNodeData>) -> Seq<u8> {
    der_oid(spec_multi_tcbinfo_oid()) + tlv(BOOL_TAG, seq![0xFFu8]) + tlv(
        OCTET_STRING_TAG,
        spec_multi_octet_body(nodes),
    )
}

pub open spec fn der_multi_tcb_info(nodes: Seq<TciNodeData>) -> Seq<u8> {
    tlv(SEQUENCE_TAG, spec_multi_body(nodes))
}

/// The node list is non-empty and every length field strictly inside the
/// extension fits the encoder's limit.
pub open spec fn multi_inner_fits(nodes: Seq<TciNodeData>) -> bool {
    &&& nodes.len() >= 1
    &&& der_tcb_list(nodes).len() <= MAX_STRUCTURE_SIZE
    &&& spec_multi_octet_body(nodes).len() <= MAX_STRUCTURE_SIZE
}

pub open spec fn multi_fits(nodes: Seq<TciNodeData>) -> bool {
    &&& multi_inner_fits(nodes)
    &&& spec_multi_body(nodes).len() <= MAX_STRUCTURE_SIZE
}

/// Body of the explicit `[3]` Extensions field: the SEQUENCE OF Extension,
/// which holds exactly the MultiTcbInfo extension.
#[verifier::opaque]
pub open spec fn spec_extensions_body(nodes: Seq<TciNodeData>) -> Seq<u8> {
    tlv(SEQUENCE_OF_TAG, der_multi_tcb_info(nodes))
}

pub open spec fn der_extensions(nodes: Seq<TciNodeData>) -> Seq<u8> {
    tlv(0xA3u8, spec_extensions_body(nodes))
}

pub open spec fn extensions_inner_fits(nodes: Seq<TciNodeData>) -> bool {
    &&& multi_fits(nodes)
    &&& der_multi_tcb_info(nodes).len() <= MAX_STRUCTURE_SIZE
}

pub open spec fn extensions_fits(nodes: Seq<TciNodeData>) -> bool {
    &&& extensions_inner_fits(nodes)
    &&& spec_extensions_body(nodes).len() <= MAX_STRUCTURE_SIZE
}

/// Body of the TBSCertificate SEQUENCE, fields in X.509 order: version,
/// serialNumber, signature algorithm, issuer, validity, subject,
/// subjectPublicKeyInfo, extensions.
#[verifier::opaque]
pub open spec fn spec_tbs_body(
    serial: Seq<u8>,
    issuer: Name,
    subject: Name,
    pubkey: EcdsaPub,
    measurements: MeasurementData,
) -> Seq<u8> {
    der_version() + der_integer(serial) + der_alg_id() + der_rdn(issuer) + der_validity()
        + der_rdn(subject) + der_pubkey_info(pubkey) + der_extensions(measurements.tci_nodes@)
}

pub open spec fn der_tbs(
    serial: Seq<u8>,
    issuer: Name,
    subject: Name,
    pubkey: EcdsaPub,
    measurements: MeasurementData,
) -> Seq<u8> {
    tlv(SEQUENCE_TAG, spec_tbs_body(serial, issuer, subject, pubkey, measurements))
}

pub open spec fn tbs_inner_fits(
    serial: Seq<u8>,
    issuer: Name,
    subject: Name,
    measurements: MeasurementData,
) -> bool {
    &&& int_fits(serial)
    &&& rdn_fits(issuer)
    &&& rdn_fits(subject)
    &&& extensions_fits(measurements.tci_nodes@)
}

pub open spec fn tbs_fits(
    serial: Seq<u8>,
    issuer: Name,
    subject: Name,
    pubkey: EcdsaPub,
    measurements: MeasurementData,
) -> bool {
    &&& tbs_inner_fits(serial, issuer, subject, measurements)
    &&& spec_tbs_body(serial, issuer, subject, pubkey, measurements).len()
        <= MAX_STRUCTURE_SIZE
}

/// Body of the Certificate SEQUENCE: TBSCertificate, signature algorithm,
/// signatureValue.
#[verifier::opaque]
pub open spec fn spec_cert_body(
    serial: Seq<u8>,
    issuer: Name,
    subject: Name,
    pubkey: EcdsaPub,
    measurements: MeasurementData,
    sig: EcdsaSignature,
) -> Seq<u8> {
    der_tbs(serial, issuer, subject, pubkey, measurements) + der_alg_id() + der_ecdsa_signature(
        sig,
    )
}

pub open spec fn der_cert(
    serial: Seq<u8>,
    issuer: Name,
    subject: Name,
    pubkey: EcdsaPub,
    measurements: MeasurementData,
    sig: EcdsaSignature,
) -> Seq<u8> {
    tlv(SEQUENCE_TAG, spec_cert_body(serial, issuer, subject, pubkey, measurements, sig))
}

pub open spec fn cert_fits(
    serial: Seq<u8>,
    issuer: Name,
    subject: Name,
    pubkey: EcdsaPub,
    measurements: MeasurementData,
    sig: EcdsaSignature,
) -> bool {
    &&& tbs_fits(serial, issuer, subject, pubkey, measurements)
    &&& spec_cert_body(serial, issuer, subject, pubkey, measurements, sig).len()
        <= MAX_STRUCTURE_SIZE
}

/// Size of an ASN.1 structure: the body alone, or with tag and size fields.
pub open spec fn spec_structure_size(n: int, tagged: bool) -> int {
    if tagged {
        1 + size_width(n) + n
    } else {
        n
    }
}

/// Definition of the AlgorithmIdentifier body, for proofs that compose it.
pub proof fn lemma_alg_id_def()
    ensures
        spec_alg_id_body() == der_oid(spec_ecdsa_oid()) + der_oid(spec_curve_oid()),
{
    reveal(crate::x509::spec_alg_id_body);
}

/// Definition of the Validity body, for proofs that compose it.
pub proof fn lemma_validity_def()
    ensures
        spec_validity_body() == tlv(GENERALIZE_TIME_TAG, spec_not_before()) + tlv(
            GENERALIZE_TIME_TAG,
            spec_not_after(),
        ),
{
    reveal(crate::x509::spec_validity_body);
}

/// Definitions of the Name structure's bodies, for proofs that compose them.
pub proof fn lemma_rdn_def(name: Name)
    ensures
        spec_attr_body(spec_rdn_common_name_oid(), name.cn@) == der_oid(
            spec_rdn_common_name_oid(),
        ) + der_printable(name.cn@),
        spec_attr_body(spec_rdn_serialnumber_oid(), name.serial@) == der_oid(
            spec_rdn_serialnumber_oid(),
        ) + der_printable(name.serial@),
        spec_rdn_set_body(name) == tlv(
            SEQUENCE_TAG,
            spec_attr_body(spec_rdn_common_name_oid(), name.cn@),
        ) + tlv(SEQUENCE_TAG, spec_attr_body(spec_rdn_serialnumber_oid(), name.serial@)),
        spec_rdn_body(name) == tlv(SET_OF_TAG, spec_rdn_set_body(name)),
{
    reveal(crate::x509::spec_attr_body);
    reveal(crate::x509::spec_rdn_set_body);
    reveal(crate::x509::spec_rdn_body);
}

/// Definitions of the SubjectPublicKeyInfo bodies, for proofs that compose
/// them.
pub proof fn lemma_pubkey_def(pubkey: EcdsaPub)
    ensures
        spec_ec_point(pubkey) == seq![0x04u8] + pubkey.x@ + pubkey.y@,
        spec_pubkey_bitstring_body(pubkey) == seq![0u8] + tlv(
            OCTET_STRING_TAG,
            spec_ec_point(pubkey),
        ),
        spec_pubkey_info_body(pubkey) == der_alg_id() + tlv(
            BIT_STRING_TAG,
            spec_pubkey_bitstring_body(pubkey),
        ),
{
    reveal(crate::x509::spec_ec_point);
    reveal(crate::x509::spec_pubkey_bitstring_body);
    reveal(crate::x509::spec_pubkey_info_body);
}

/// Definitions of the signatureValue bodies, for proofs that compose them.
pub proof fn lemma_sig_def(sig: EcdsaSignature)
    ensures
        spec_sig_seq_body(sig) == der_integer(sig.r@) + der_integer(sig.s@),
        spec_sig_bitstring_body(sig) == seq![0u8] + tlv(SEQUENCE_TAG, spec_sig_seq_body(sig)),
{
    reveal(crate::x509::spec_sig_seq_body);
    reveal(crate::x509::spec_sig_bitstring_body);
}

/// Definition of the FWID body, for proofs that compose it.
pub proof fn lemma_fwid_def(digest: Seq<u8>)
    ensures
        spec_fwid_body(digest) == der_oid(spec_hash_oid()) + tlv(OCTET_STRING_TAG, digest),
{
    reveal(crate::x509::spec_fwid_body);
}

/// Definitions of the TcbInfo bodies, for proofs that compose them.
pub proof fn lemma_tcb_def(node: TciNodeData)
    ensures
        spec_fwids_body(node) == der_fwid(node.tci_current.0@) + der_fwid(
            node.tci_cumulative.0@,
        ),
        spec_tcb_info_body(node) == tlv(0xA6u8, spec_fwids_body(node)) + tlv(
            0x88u8,
            spec_vendor_info(node),
        ) + tlv(0x89u8, spec_u32_be(node.tci_type)),
{
    reveal(crate::x509::spec_fwids_body);
    reveal(crate::x509::spec_tcb_info_body);
}

/// Definitions of the MultiTcbInfo bodies, for proofs that compose them.
pub proof fn lemma_multi_def(nodes: Seq<TciNodeData>)
    ensures
        spec_multi_octet_body(nodes) == tlv(SEQUENCE_OF_TAG, der_tcb_list(nodes)),
        spec_multi_body(nodes) == der_oid(spec_multi_tcbinfo_oid()) + tlv(
            BOOL_TAG,
            seq![0xFFu8],
        ) + tlv(OCTET_STRING_TAG, spec_multi_octet_body(nodes)),
{
    reveal(crate::x509::spec_multi_octet_body);
    reveal(crate::x509::spec_multi_body);
}

/// Definition of the Extensions body, for proofs that compose it.
pub proof fn lemma_extensions_def(nodes: Seq<TciNodeData>)
    ensures
        spec_extensions_body(nodes) == tlv(SEQUENCE_OF_TAG, der_multi_tcb_info(nodes)),
{
    reveal(crate::x509::spec_extensions_body);
}

/// Definition of the TBSCertificate body, for proofs that compose it.
pub proof fn lemma_tbs_def(
    serial: Seq<u8>,
    issuer: Name,
    subject: Name,
    pubkey: EcdsaPub,
    measurements: MeasurementData,
)
    ensures
        spec_tbs_body(serial, issuer, subject, pubkey, measurements) == der_version()
            + der_integer(serial) + der_alg_id() + der_rdn(issuer) + der_validity() + der_rdn(
            subject,
        ) + der_pubkey_info(pubkey) + der_extensions(measurements.tci_nodes@),
{
    reveal(crate::x509::spec_tbs_body);
}

/// Definition of the Certificate body, for proofs that compose it.
pub proof fn lemma_cert_def(
    serial: Seq<u8>,
    issuer: Name,
    subject: Name,
    pubkey: EcdsaPub,
    measurements: MeasurementData,
    sig: EcdsaSignature,
)
    ensures
        spec_cert_body(serial, issuer, subject, pubkey, measurements, sig) == der_tbs(
            serial,
            issuer,
            subject,
            pubkey,
            measurements,
        ) + der_alg_id() + der_ecdsa_signature(sig),
{
    reveal(crate::x509::spec_cert_body);
}

/// Determinism: the bytes a successful certificate encode writes are
/// `der_cert` of the inputs alone, so two successful encodes of the same
/// inputs produce byte-identical output, wherever in their buffers they
/// started.
pub proof fn lemma_encode_deterministic(
    pre1: X509CertWriter,
    post1: X509CertWriter,
    pre2: X509CertWriter,
    post2: X509CertWriter,
    serial: Seq<u8>,
    issuer: Name,
    subject: Name,
    pubkey: EcdsaPub,
    measurements: MeasurementData,
    sig: EcdsaSignature,
)
    requires
        wrote(pre1, post1, der_cert(serial, issuer, subject, pubkey, measurements, sig)),
        wrote(pre2, post2, der_cert(serial, issuer, subject, pubkey, measurements, sig)),
    ensures
        post1.certificate@.subrange(pre1.offset as int, post1.offset as int)
            == post2.certificate@.subrange(pre2.offset as int, post2.offset as int),
{
    let data = der_cert(serial, issuer, subject, pubkey, measurements, sig);
    crate::der::lemma_spliced_len(pre1.certificate@, pre1.offset as int, data);
    crate::der::lemma_spliced_len(pre2.certificate@, pre2.offset as int, data);
    assert(post1.certificate@.subrange(pre1.offset as int, post1.offset as int) =~= data);
    assert(post2.certificate@.subrange(pre2.offset as int, post2.offset as int) =~= data);
}

} // verus!

