//! Specification-level model of the DER forms the encoder emits.
//!
//! Every emitter in `x509` is proved to write exactly the byte sequence that
//! the spec functions here describe, and every size query is proved to return
//! exactly the length of that byte sequence.

use vstd::prelude::*;

verus! {

/// Largest body length the encoder accepts: DER long-form lengths here use at
/// most two length octets.
pub const MAX_STRUCTURE_SIZE: usize = 65535;

/// Number of octets of the DER length field for a body of `n` bytes
/// (meaningful for `0 <= n <= 65535`).
pub open spec fn size_width(n: int) -> int {
    if n <= 127 {
        1
    } else if n <= 255 {
        2
    } else {
        3
    }
}

/// The DER length field for a body of `n` bytes: short form up to 127, long
/// form `0x81` or `0x82` above (meaningful for `0 <= n <= 65535`).
pub open spec fn len_field(n: int) -> Seq<u8> {
    if n <= 127 {
        seq![n as u8]
    } else if n <= 255 {
        seq![0x81u8, n as u8]
    } else {
        seq![0x82u8, (n / 256) as u8, (n % 256) as u8]
    }
}

/// A full DER TLV: identifier octet, length field, body.
pub open spec fn tlv(tag: u8, body: Seq<u8>) -> Seq<u8> {
    seq![tag] + len_field(body.len() as int) + body
}

/// Whether a body of `n` bytes fits under the encoder's length-field limit.
pub open spec fn fits(n: int) -> bool {
    n <= MAX_STRUCTURE_SIZE
}

/// The length of a TLV: identifier octet, length octets, body.
pub proof fn lemma_tlv_len(tag: u8, body: Seq<u8>)
    ensures
        tlv(tag, body).len() == 1 + size_width(body.len() as int) + body.len(),
{
}

/// Big-endian input with its leading zero bytes removed, keeping at least the
/// last byte.
pub open spec fn strip_zeros(b: Seq<u8>) -> Seq<u8>
    decreases b.len(),
{
    if b.len() <= 1 {
        b
    } else if b[0] == 0 {
        strip_zeros(b.drop_first())
    } else {
        b
    }
}

/// Canonical body of a DER INTEGER for a big-endian unsigned input: leading
/// zeros stripped, one `0x00` prepended when the top bit of the first
/// retained byte is set.
pub open spec fn int_body(b: Seq<u8>) -> Seq<u8> {
    let s = strip_zeros(b);
    if s.len() > 0 && s[0] >= 0x80 {
        seq![0u8] + s
    } else {
        s
    }
}

/// The full DER INTEGER encoding of a big-endian unsigned input.
pub open spec fn der_integer(b: Seq<u8>) -> Seq<u8> {
    tlv(0x02, int_body(b))
}

/// Whether the INTEGER encoding of `b` fits under the length-field limit.
pub open spec fn int_fits(b: Seq<u8>) -> bool {
    fits(int_body(b).len() as int)
}

/// The mathematical value of a big-endian byte string.
pub open spec fn be_value(b: Seq<u8>) -> nat
    decreases b.len(),
{
    if b.len() == 0 {
        0
    } else {
        (be_value(b.drop_last()) * 256 + b.last()) as nat
    }
}

/// `strip_zeros` returns a suffix of its input, everything before that suffix
/// is zero, and the suffix starts with a nonzero byte unless it is the single
/// final byte.
pub proof fn lemma_strip_zeros_suffix(b: Seq<u8>)
    ensures
        strip_zeros(b).len() <= b.len(),
        b.len() > 0 ==> strip_zeros(b).len() >= 1,
        strip_zeros(b) == b.skip(b.len() - strip_zeros(b).len()),
        forall|j: int| 0 <= j < b.len() - strip_zeros(b).len() ==> b[j] == 0,
        strip_zeros(b).len() > 1 ==> strip_zeros(b)[0] != 0,
    decreases b.len(),
{
    if b.len() <= 1 {
        assert(strip_zeros(b) =~= b.skip(0));
    } else if b[0] == 0 {
        lemma_strip_zeros_suffix(b.drop_first());
        let s = strip_zeros(b);
        assert(s == strip_zeros(b.drop_first()));
        assert(b.drop_first().skip(b.drop_first().len() - s.len()) =~= b.skip(
            b.len() - s.len(),
        ));
        assert forall|j: int| 0 <= j < b.len() - s.len() implies b[j] == 0 by {
            if j > 0 {
                assert(b.drop_first()[j - 1] == 0);
            }
        }
    } else {
        assert(strip_zeros(b) =~= b.skip(0));
    }
}

/// The INTEGER body is the input's suffix that drops its leading zeros, with
/// one zero byte kept in front when the top bit of the first retained byte is
/// set; when even the whole input must be kept, a fresh zero is prepended.
pub proof fn lemma_int_body_suffix(b: Seq<u8>)
    ensures
        int_body(b).len() <= b.len() + 1,
        int_body(b).len() > b.len() ==> int_body(b) == seq![0u8] + b,
        int_body(b).len() <= b.len() ==> int_body(b) == b.skip(b.len() - int_body(b).len()),
{
    lemma_strip_zeros_suffix(b);
    let s = strip_zeros(b);
    let body = int_body(b);
    if s.len() > 0 && s[0] >= 0x80 {
        if s.len() == b.len() {
            assert(s =~= b);
            assert(body == seq![0u8] + b);
        } else {
            let k = b.len() - s.len();
            assert(b[k - 1] == 0);
            assert(body =~= b.skip(k - 1));
        }
    }
}

/// Prepending a zero byte does not change the big-endian value.
pub proof fn lemma_be_value_prepend_zero(b: Seq<u8>)
    ensures
        be_value(seq![0u8] + b) == be_value(b),
    decreases b.len(),
{
    if b.len() == 0 {
        assert(seq![0u8] + b =~= seq![0u8]);
        assert(be_value(seq![0u8]) == be_value(seq![0u8].drop_last()) * 256 + 0);
        assert(seq![0u8].drop_last() =~= Seq::<u8>::empty());
    } else {
        let z = seq![0u8] + b;
        assert(z.drop_last() =~= seq![0u8] + b.drop_last());
        lemma_be_value_prepend_zero(b.drop_last());
        assert(z.last() == b.last());
    }
}

/// Stripping leading zeros does not change the big-endian value.
pub proof fn lemma_be_value_strip(b: Seq<u8>)
    ensures
        be_value(strip_zeros(b)) == be_value(b),
    decreases b.len(),
{
    if b.len() <= 1 {
    } else if b[0] == 0 {
        lemma_be_value_strip(b.drop_first());
        assert(b =~= seq![0u8] + b.drop_first());
        lemma_be_value_prepend_zero(b.drop_first());
    }
}

/// INTEGER canonicalization round-trip: for any 1-to-64-byte big-endian
/// input, the canonical INTEGER body denotes the same mathematical value as
/// the input, and it carries no leading zero beyond the single
/// disambiguation byte (a leading zero only ever stands before a byte with
/// its top bit set).
pub proof fn lemma_integer_round_trip(b: Seq<u8>)
    requires
        1 <= b.len() <= 64,
    ensures
        be_value(int_body(b)) == be_value(b),
        int_body(b).len() >= 1,
        int_body(b)[0] == 0 ==> int_body(b).len() == 1 || int_body(b)[1] >= 0x80,
        int_body(b).len() == 1 && int_body(b)[0] == 0 ==> be_value(b) == 0,
{
    lemma_strip_zeros_suffix(b);
    lemma_be_value_strip(b);
    let s = strip_zeros(b);
    if s.len() > 0 && s[0] >= 0x80 {
        lemma_be_value_prepend_zero(s);
    } else {
        if s.len() > 1 {
            assert(s[0] != 0);
        }
        if s.len() == 1 && s[0] == 0 {
            assert(s.drop_last() =~= Seq::<u8>::empty());
            assert(be_value(Seq::<u8>::empty()) == 0);
            assert(s.last() == 0);
            assert(be_value(s) == (be_value(s.drop_last()) * 256 + s.last()) as nat);
            assert(be_value(s) == 0);
        }
    }
}

/// A buffer with `data` written over its bytes starting at `at`.
pub open spec fn spliced(buf: Seq<u8>, at: int, data: Seq<u8>) -> Seq<u8> {
    buf.take(at) + data + buf.skip(at + data.len())
}

/// Splicing keeps the buffer length, overwrites exactly the spliced range,
/// and leaves every other byte alone.
pub proof fn lemma_spliced_len(buf: Seq<u8>, at: int, data: Seq<u8>)
    requires
        0 <= at,
        at + data.len() <= buf.len(),
    ensures
        spliced(buf, at, data).len() == buf.len(),
        forall|j: int|
            0 <= j < buf.len() && !(at <= j < at + data.len()) ==> spliced(buf, at, data)[j] == buf[j],
        forall|j: int| 0 <= j < data.len() ==> spliced(buf, at, data)[at + j] == data[j],
{
}

} // verus!
