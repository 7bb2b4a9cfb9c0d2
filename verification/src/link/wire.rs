//! Integers in network byte order, written and read by `bincode`.

use vstd::prelude::*;

verus! {

/// What can go wrong between values and bytes.
#[derive(Clone, Copy, Debug, PartialEq, Eq, Structural)]
pub enum Error {
    /// A value could not be written.
    Encode,
    /// Bytes could not be read as a value.
    Decode,
}

/// The number that `bytes` spell with the most significant byte first.
pub open spec fn be_value(bytes: Seq<u8>) -> nat
    decreases bytes.len(),
{
    if bytes.len() == 0 {
        0
    } else {
        be_value(bytes.drop_last()) * 256 + bytes.last() as nat
    }
}

/// The error of `bincode` encoders, opaque.
#[verifier::external_type_specification]
#[verifier::external_body]
pub struct ExEncodeError(bincode::error::EncodeError);

/// The error of `bincode` decoders, opaque.
#[verifier::external_type_specification]
#[verifier::external_body]
pub struct ExDecodeError(bincode::error::DecodeError);

/// Calls `bincode::encode_to_vec` on a `u16`, with big-endian integers of fixed width: two
/// bytes that spell the value. Encoding into memory does not fail.
#[verifier::external_body]
pub(crate) fn bincode_u16(value: u16) -> (bytes: Result<Vec<u8>, bincode::error::EncodeError>)
    ensures
        bytes is Ok,
        bytes->Ok_0@.len() == 2,
        be_value(bytes->Ok_0@) == value,
{
    let config = bincode::config::standard().with_big_endian().with_fixed_int_encoding();
    bincode::encode_to_vec(value, config)
}

/// Calls `bincode::encode_to_vec` on a `u32`, with big-endian integers of fixed width: four
/// bytes that spell the value. Encoding into memory does not fail.
#[verifier::external_body]
pub(crate) fn bincode_u32(value: u32) -> (bytes: Result<Vec<u8>, bincode::error::EncodeError>)
    ensures
        bytes is Ok,
        bytes->Ok_0@.len() == 4,
        be_value(bytes->Ok_0@) == value,
{
    let config = bincode::config::standard().with_big_endian().with_fixed_int_encoding();
    bincode::encode_to_vec(value, config)
}

/// Calls `bincode::encode_to_vec` on a `u64`, with big-endian integers of fixed width: eight
/// bytes that spell the value. Encoding into memory does not fail.
#[verifier::external_body]
pub(crate) fn bincode_u64(value: u64) -> (bytes: Result<Vec<u8>, bincode::error::EncodeError>)
    ensures
        bytes is Ok,
        bytes->Ok_0@.len() == 8,
        be_value(bytes->Ok_0@) == value,
{
    let config = bincode::config::standard().with_big_endian().with_fixed_int_encoding();
    bincode::encode_to_vec(value, config)
}

/// Calls `bincode::decode_from_slice` for a pair of a `u32` and a `u16`, with big-endian
/// integers of fixed width. It succeeds exactly on six bytes or more, and reads the first
/// four and the next two.
#[verifier::external_body]
pub(crate) fn bincode_decode_u32_u16(bytes: &[u8]) -> (pair: Result<
    ((u32, u16), usize),
    bincode::error::DecodeError,
>)
    ensures
        pair is Ok <==> bytes@.len() >= 6,
        pair matches Ok(read) ==> {
            &&& read.0.0 == be_value(bytes@.subrange(0, 4))
            &&& read.0.1 == be_value(bytes@.subrange(4, 6))
            &&& read.1 == 6
        },
{
    let config = bincode::config::standard().with_big_endian().with_fixed_int_encoding();
    bincode::decode_from_slice(bytes, config)
}

/// Calls `bincode::decode_from_slice` for a `u64`, with big-endian integers of fixed width. It
/// succeeds exactly on eight bytes or more, and reads the first eight.
#[verifier::external_body]
pub(crate) fn bincode_decode_u64(bytes: &[u8]) -> (value: Result<
    (u64, usize),
    bincode::error::DecodeError,
>)
    ensures
        value is Ok <==> bytes@.len() >= 8,
        value matches Ok(read) ==> read.0 == be_value(bytes@.subrange(0, 8)) && read.1 == 8,
{
    let config = bincode::config::standard().with_big_endian().with_fixed_int_encoding();
    bincode::decode_from_slice(bytes, config)
}

/// Bytes that spell the same number at the same length are the same bytes.
pub proof fn lemma_be_value_injective(a: Seq<u8>, b: Seq<u8>)
    requires
        a.len() == b.len(),
        be_value(a) == be_value(b),
    ensures
        a == b,
    decreases a.len(),
{
    if a.len() > 0 {
        let high_a = be_value(a.drop_last());
        let high_b = be_value(b.drop_last());
        assert(high_a * 256 + a.last() == high_b * 256 + b.last());
        assert(high_a == high_b);
        lemma_be_value_injective(a.drop_last(), b.drop_last());
        assert(a =~= a.drop_last().push(a.last()));
        assert(b =~= b.drop_last().push(b.last()));
    }
}

/// The bytes come with the most significant first: of two sequences of one length the one with
/// the greater first byte spells the greater number. One byte spells itself.
pub proof fn law_first_byte_weighs_most(a: Seq<u8>, b: Seq<u8>)
    requires
        a.len() == b.len(),
        a.len() > 0,
        a[0] < b[0],
    ensures
        be_value(a) < be_value(b),
        a.len() == 1 ==> be_value(a) == a[0],
    decreases a.len(),
{
    if a.len() > 1 {
        law_first_byte_weighs_most(a.drop_last(), b.drop_last());
    } else {
        assert(be_value(a.drop_last()) == 0);
        assert(be_value(b.drop_last()) == 0);
    }
}

/// One more byte at the end moves the others up by one place.
pub proof fn law_byte_moves_the_others_up(bytes: Seq<u8>, last: u8)
    ensures
        be_value(bytes.push(last)) == 256 * be_value(bytes) + last,
        be_value(Seq::empty()) == 0,
{
    assert(bytes.push(last).drop_last() =~= bytes);
}

} // verus!
