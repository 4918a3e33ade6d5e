//! Fixed-width identity codec.
//!
//! Identities travel on the wire as exactly 32 bytes: the UTF-8 bytes of
//! the identity, zero-padded at the end. Encoding an identity longer than
//! 32 bytes is a validation failure, never a silent truncation. Decoding
//! strips trailing zero bytes and reinterprets the prefix as UTF-8,
//! lossily: invalid byte sequences become replacement characters.

use vstd::prelude::*;

verus! {

use vstd::utf8::{valid_utf8, encode_utf8, decode_utf8};
use vstd::utf8::{encode_utf8_valid_utf8, encode_utf8_decode_utf8};
use vstd::utf8::{encode_scalar, has_width_1_encoding};
use vstd::slice::slice_index_get;

/// Width in bytes of the wire form of an identity.
pub const IDENTITY_WIRE_LEN: usize = 32;

/// An identity whose UTF-8 form exceeds the 32-byte wire width.
#[derive(Debug, Clone, Copy, PartialEq, Eq, Structural)]
pub enum EncodeError {
    Overflow,
}

/// The wire form of an identity: its UTF-8 bytes, padded with zero bytes
/// up to 32. Meaningful only when the UTF-8 form fits.
pub open spec fn encoded_id(id: Seq<char>) -> Seq<u8> {
    encode_utf8(id) + Seq::new((IDENTITY_WIRE_LEN - encode_utf8(id).len()) as nat, |i: int| 0u8)
}

/// `bytes` with every trailing zero byte removed.
pub open spec fn strip_trailing_zeros(bytes: Seq<u8>) -> Seq<u8>
    decreases bytes.len(),
{
    if bytes.len() == 0 {
        bytes
    } else if bytes.last() == 0u8 {
        strip_trailing_zeros(bytes.drop_last())
    } else {
        bytes
    }
}

/// What `String::from_utf8_lossy` returns on bytes that are not valid
/// UTF-8: a function of the bytes alone.
pub uninterp spec fn lossy_utf8(bytes: Seq<u8>) -> Seq<char>;

/// Lossy UTF-8 reinterpretation: valid UTF-8 decodes exactly; anything
/// else comes back with its invalid sequences replaced.
pub open spec fn lossy_decoded(bytes: Seq<u8>) -> Seq<char> {
    if valid_utf8(bytes) {
        decode_utf8(bytes)
    } else {
        lossy_utf8(bytes)
    }
}

/// The identity that a wire byte sequence stands for: trailing zero bytes
/// stripped, the rest lossily reinterpreted as UTF-8.
pub open spec fn decoded_id(bytes: Seq<u8>) -> Seq<char> {
    lossy_decoded(strip_trailing_zeros(bytes))
}

/// Relies on `String::from_utf8_lossy`: the result depends on the bytes
/// alone, and valid UTF-8 input comes back unchanged (the documentation
/// promises the original string in that case).
#[verifier::external_body]
fn from_utf8_lossy_owned(bytes: &[u8]) -> (r: String)
    ensures
        r@ == lossy_decoded(bytes@),
        !valid_utf8(bytes@) ==> r@ == lossy_utf8(bytes@),
{
    String::from_utf8_lossy(bytes).into_owned()
}

/// Encode an identity into its fixed 32-byte wire form; identities whose
/// UTF-8 form is longer than 32 bytes are rejected, never truncated.
pub fn str_to_byte_array_32(s: &str) -> (r: Result<Vec<u8>, EncodeError>)
    ensures
        match r {
            Ok(v) => encode_utf8(s@).len() <= IDENTITY_WIRE_LEN && v@ == encoded_id(s@)
                && v@.len() == IDENTITY_WIRE_LEN,
            Err(e) => encode_utf8(s@).len() > IDENTITY_WIRE_LEN && e == EncodeError::Overflow,
        },
{
    let bytes = s.as_bytes();
    if bytes.len() > IDENTITY_WIRE_LEN {
        Err(EncodeError::Overflow)
    } else {
        let mut v: Vec<u8> = Vec::with_capacity(IDENTITY_WIRE_LEN);
        let mut i: usize = 0;
        while i < bytes.len()
            invariant
                i <= bytes@.len() <= IDENTITY_WIRE_LEN,
                bytes@ == encode_utf8(s@),
                v@ == bytes@.subrange(0, i as int),
            decreases bytes@.len() - i,
        {
            v.push(bytes[i]);
            i += 1;
        }
        assert(v@ =~= bytes@);
        while v.len() < IDENTITY_WIRE_LEN
            invariant
                bytes@.len() <= v@.len() <= IDENTITY_WIRE_LEN,
                bytes@ == encode_utf8(s@),
                v@.subrange(0, bytes@.len() as int) == bytes@,
                forall|j: int| bytes@.len() <= j < v@.len() ==> v@[j] == 0u8,
            decreases IDENTITY_WIRE_LEN - v@.len(),
        {
            v.push(0u8);
        }
        assert(v@ =~= encoded_id(s@));
        Ok(v)
    }
}

/// Decode a wire byte sequence: remove all trailing zero bytes and
/// reinterpret the remaining prefix as UTF-8, lossily.
pub fn bytes_to_string_truncate_zeroes(bytes: &[u8]) -> (r: String)
    ensures
        r@ == decoded_id(bytes@),
{
    let mut end: usize = bytes.len();
    assert(bytes@.subrange(0, end as int) =~= bytes@);
    while end > 0 && *slice_index_get(bytes, end - 1) == 0u8
        invariant
            end <= bytes@.len(),
            strip_trailing_zeros(bytes@) == strip_trailing_zeros(bytes@.subrange(0, end as int)),
        decreases end,
    {
        proof {
            let cur = bytes@.subrange(0, end as int);
            assert(cur.last() == 0u8);
            assert(cur.drop_last() =~= bytes@.subrange(0, end - 1));
        }
        end -= 1;
    }
    proof {
        let cur = bytes@.subrange(0, end as int);
        if end == 0 {
            assert(strip_trailing_zeros(cur) =~= cur);
        }
        assert(strip_trailing_zeros(bytes@) =~= bytes@.subrange(0, end as int));
    }
    from_utf8_lossy_owned(&bytes[0..end])
}

proof fn lemma_strip_after_push_zero(s: Seq<u8>)
    ensures
        strip_trailing_zeros(s.push(0u8)) == strip_trailing_zeros(s),
{
    assert(s.push(0u8).drop_last() =~= s);
}

proof fn lemma_strip_padded(s: Seq<u8>, zeros: nat)
    requires
        s.len() > 0 ==> s.last() != 0u8,
    ensures
        strip_trailing_zeros(s + Seq::new(zeros, |i: int| 0u8)) == s,
    decreases zeros,
{
    if zeros == 0 {
        assert(s + Seq::new(0, |i: int| 0u8) =~= s);
    } else {
        let shorter = s + Seq::new((zeros - 1) as nat, |i: int| 0u8);
        assert(s + Seq::new(zeros, |i: int| 0u8) =~= shorter.push(0u8));
        lemma_strip_after_push_zero(shorter);
        lemma_strip_padded(s, (zeros - 1) as nat);
    }
}

proof fn lemma_encode_scalar_last_nonzero(c: u32)
    requires
        c != 0,
    ensures
        encode_scalar(c).len() > 0,
        encode_scalar(c).last() != 0u8,
{
    if has_width_1_encoding(c) {
        assert((c & 0x7F) as u8 != 0u8) by (bit_vector)
            requires
                c != 0 && c <= 0x7F,
        ;
    } else {
        assert((0x80u8 | (c & 0x3F) as u8) != 0u8) by (bit_vector);
    }
}

/// A character sequence that does not end in the NUL character encodes to
/// bytes that do not end in a zero byte: only NUL encodes one.
proof fn lemma_encode_last_nonzero(id: Seq<char>)
    requires
        id.len() > 0,
        id.last() != '\0',
    ensures
        encode_utf8(id).len() > 0,
        encode_utf8(id).last() != 0u8,
    decreases id.len(),
{
    if id.len() == 1 {
        assert(id.last() == id[0]);
        assert(id[0] as u32 != 0) by {
            vstd::utf8::char_u32_cast(id[0], id[0] as u32);
            vstd::utf8::char_u32_cast('\0', '\0' as u32);
            assert('\0' as u32 == 0);
        }
        assert(encode_utf8(id.drop_first()) =~= Seq::<u8>::empty());
        assert(encode_utf8(id) =~= encode_scalar(id[0] as u32));
        lemma_encode_scalar_last_nonzero(id[0] as u32);
    } else {
        let rest = id.drop_first();
        assert(rest.last() == id.last());
        lemma_encode_last_nonzero(rest);
        assert(encode_utf8(id).last() == encode_utf8(rest).last());
    }
}

/// Law: decoding the wire form of an identity yields the identity back,
/// for every identity whose UTF-8 form fits in the 32-byte width and that
/// does not itself end in the NUL character (trailing NULs are
/// indistinguishable from padding on the wire).
pub proof fn lemma_identity_round_trip(id: Seq<char>)
    requires
        encode_utf8(id).len() <= IDENTITY_WIRE_LEN,
        id.len() > 0 ==> id.last() != '\0',
    ensures
        decoded_id(encoded_id(id)) == id,
{
    broadcast use encode_utf8_valid_utf8;
    broadcast use encode_utf8_decode_utf8;

    if id.len() > 0 {
        lemma_encode_last_nonzero(id);
    }
    let padding = (IDENTITY_WIRE_LEN - encode_utf8(id).len()) as nat;
    lemma_strip_padded(encode_utf8(id), padding);
}

} // verus!
