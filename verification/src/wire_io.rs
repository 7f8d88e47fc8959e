//! The `prost` encoding functions that the message codec calls. Each reads
//! from a byte slice and says how much of it is left, or appends to a byte
//! vector; their contracts restate the wire format of `crate::wire`.
use crate::wire::{
    bool_bits, i64_bits, spec_chunk_entry, spec_chunk_field, spec_key, spec_parse_key, spec_string_entry,
    spec_string_field, spec_varint_entry, spec_varint_field, u64_to_i32, u64_to_i64,
    wire_number, WireKind, MAX_TAG,
};
use prost::encoding::{DecodeContext, WireType};
use prost::DecodeError;
use vstd::prelude::*;

verus! {

/// `prost::DecodeError`: why a byte string is not a valid protobuf message.
#[verifier::external_type_specification]
#[verifier::external_body]
pub struct ExDecodeError(DecodeError);

/// The result of `prost::encoding::skip_field` on a field of wire type
/// `wire` (its number) and tag `tag`, read from `input` just after the key
/// with a fresh decode context: the length of the input left after the field,
/// or `None` where `prost` reports an error.
pub uninterp spec fn spec_skip_field(wire: u64, tag: u32, input: Seq<u8>) -> Option<nat>;

/// Calls `prost::encoding::encode_key`, which appends the varint of
/// `tag * 8` plus the number of wire type `kind`.
#[verifier::external_body]
pub(crate) fn put_key(tag: u32, kind: WireKind, buf: &mut Vec<u8>)
    requires
        1 <= tag <= MAX_TAG,
    ensures
        final(buf)@ == old(buf)@ + spec_key(tag, kind),
{
    let wire_type = match kind {
        WireKind::Varint => WireType::Varint,
        WireKind::SixtyFourBit => WireType::SixtyFourBit,
        WireKind::LengthDelimited => WireType::LengthDelimited,
        WireKind::StartGroup => WireType::StartGroup,
        WireKind::EndGroup => WireType::EndGroup,
        WireKind::ThirtyTwoBit => WireType::ThirtyTwoBit,
    };
    prost::encoding::encode_key(tag, wire_type, buf)
}

/// Calls `prost::encoding::int64::encode`, which appends the key of field
/// `tag` with the varint wire type and the varint of `value`'s two's
/// complement bits.
#[verifier::external_body]
pub(crate) fn put_int64(tag: u32, value: i64, buf: &mut Vec<u8>)
    requires
        1 <= tag <= MAX_TAG,
    ensures
        final(buf)@ == old(buf)@ + spec_varint_entry(tag, i64_bits(value)),
{
    prost::encoding::int64::encode(tag, &value, buf)
}

/// Calls `prost::encoding::int32::encode`, which writes `value` sign-extended
/// to 64 bits, as `int64` would.
#[verifier::external_body]
pub(crate) fn put_int32(tag: u32, value: i32, buf: &mut Vec<u8>)
    requires
        1 <= tag <= MAX_TAG,
    ensures
        final(buf)@ == old(buf)@ + spec_varint_entry(tag, i64_bits(value as i64)),
{
    prost::encoding::int32::encode(tag, &value, buf)
}

/// Calls `prost::encoding::bool::encode`, which writes `value` as the varint
/// 1 or 0.
#[verifier::external_body]
pub(crate) fn put_bool(tag: u32, value: bool, buf: &mut Vec<u8>)
    requires
        1 <= tag <= MAX_TAG,
    ensures
        final(buf)@ == old(buf)@ + spec_varint_entry(tag, bool_bits(value)),
{
    prost::encoding::bool::encode(tag, &value, buf)
}

/// Calls `prost::encoding::string::encode`, which appends the key of field
/// `tag` with the length-delimited wire type, the byte length of `value` as a
/// varint, and its UTF-8 bytes.
#[verifier::external_body]
pub(crate) fn put_string(tag: u32, value: &String, buf: &mut Vec<u8>)
    requires
        1 <= tag <= MAX_TAG,
    ensures
        final(buf)@ == old(buf)@ + spec_string_entry(tag, value@),
{
    prost::encoding::string::encode(tag, value, buf)
}

/// Calls `prost::encoding::bytes::encode` on a `Vec<u8>`, which appends the
/// key of field `tag` with the length-delimited wire type, the length of
/// `value` as a varint, and its bytes.
#[verifier::external_body]
pub(crate) fn put_bytes(tag: u32, value: &Vec<u8>, buf: &mut Vec<u8>)
    requires
        1 <= tag <= MAX_TAG,
    ensures
        final(buf)@ == old(buf)@ + spec_chunk_entry(tag, value@),
{
    prost::encoding::bytes::encode(tag, value, buf)
}

/// Calls `prost::encoding::decode_key` on `buf`: the key at its start, as
/// `spec_parse_key` reads it, and the length of the input left after it.
#[verifier::external_body]
pub(crate) fn take_key(buf: &[u8]) -> (res: Result<(u32, WireKind, usize), DecodeError>)
    ensures
        match spec_parse_key(buf@) {
            Some((t, k, n)) => res matches Ok((t2, k2, r)) && t2 == t && k2 == k && r == buf.len()
                - n,
            None => res is Err,
        },
{
    let mut rest = buf;
    let (tag, wire_type) = prost::encoding::decode_key(&mut rest)?;
    let kind = match wire_type {
        WireType::Varint => WireKind::Varint,
        WireType::SixtyFourBit => WireKind::SixtyFourBit,
        WireType::LengthDelimited => WireKind::LengthDelimited,
        WireType::StartGroup => WireKind::StartGroup,
        WireType::EndGroup => WireKind::EndGroup,
        WireType::ThirtyTwoBit => WireKind::ThirtyTwoBit,
    };
    Ok((tag, kind, rest.len()))
}

/// Calls `prost::encoding::skip_field` with a fresh decode context on the
/// field of wire type `kind` and tag `tag` whose key has just been read. Its
/// result is named by `spec_skip_field`; the field can only take bytes, so
/// what is left is never longer than `buf`.
#[verifier::external_body]
pub(crate) fn skip_unknown(kind: WireKind, tag: u32, buf: &[u8]) -> (res: Result<
    usize,
    DecodeError,
>)
    ensures
        match spec_skip_field(wire_number(kind), tag, buf@) {
            Some(r) => res matches Ok(r2) && r2 == r,
            None => res is Err,
        },
        res matches Ok(r) ==> r <= buf.len(),
{
    let mut rest = buf;
    let wire_type = match kind {
        WireKind::Varint => WireType::Varint,
        WireKind::SixtyFourBit => WireType::SixtyFourBit,
        WireKind::LengthDelimited => WireType::LengthDelimited,
        WireKind::StartGroup => WireType::StartGroup,
        WireKind::EndGroup => WireType::EndGroup,
        WireKind::ThirtyTwoBit => WireType::ThirtyTwoBit,
    };
    prost::encoding::skip_field(wire_type, tag, &mut rest, DecodeContext::default())?;
    Ok(rest.len())
}

/// Calls `prost::encoding::int64::merge`: with the varint wire type, it
/// reads a varint and stores its bits as an `i64`; otherwise, or where no
/// varint reads, it fails.
#[verifier::external_body]
pub(crate) fn take_int64(kind: WireKind, value: &mut i64, buf: &[u8]) -> (res: Result<
    usize,
    DecodeError,
>)
    ensures
        match spec_varint_field(kind, buf@) {
            Some((x, r)) => res matches Ok(r2) && r2 == r && *final(value) == u64_to_i64(x),
            None => res is Err,
        },
{
    let mut rest = buf;
    let wire_type = match kind {
        WireKind::Varint => WireType::Varint,
        WireKind::SixtyFourBit => WireType::SixtyFourBit,
        WireKind::LengthDelimited => WireType::LengthDelimited,
        WireKind::StartGroup => WireType::StartGroup,
        WireKind::EndGroup => WireType::EndGroup,
        WireKind::ThirtyTwoBit => WireType::ThirtyTwoBit,
    };
    prost::encoding::int64::merge(wire_type, value, &mut rest, DecodeContext::default())?;
    Ok(rest.len())
}

/// Calls `prost::encoding::int32::merge`: as `int64`, but it keeps the low
/// 32 bits of the varint.
#[verifier::external_body]
pub(crate) fn take_int32(kind: WireKind, value: &mut i32, buf: &[u8]) -> (res: Result<
    usize,
    DecodeError,
>)
    ensures
        match spec_varint_field(kind, buf@) {
            Some((x, r)) => res matches Ok(r2) && r2 == r && *final(value) == u64_to_i32(x),
            None => res is Err,
        },
{
    let mut rest = buf;
    let wire_type = match kind {
        WireKind::Varint => WireType::Varint,
        WireKind::SixtyFourBit => WireType::SixtyFourBit,
        WireKind::LengthDelimited => WireType::LengthDelimited,
        WireKind::StartGroup => WireType::StartGroup,
        WireKind::EndGroup => WireType::EndGroup,
        WireKind::ThirtyTwoBit => WireType::ThirtyTwoBit,
    };
    prost::encoding::int32::merge(wire_type, value, &mut rest, DecodeContext::default())?;
    Ok(rest.len())
}

/// Calls `prost::encoding::bool::merge`: as `int64`, storing whether the
/// varint is non-zero.
#[verifier::external_body]
pub(crate) fn take_bool(kind: WireKind, value: &mut bool, buf: &[u8]) -> (res: Result<
    usize,
    DecodeError,
>)
    ensures
        match spec_varint_field(kind, buf@) {
            Some((x, r)) => res matches Ok(r2) && r2 == r && *final(value) == (x != 0),
            None => res is Err,
        },
{
    let mut rest = buf;
    let wire_type = match kind {
        WireKind::Varint => WireType::Varint,
        WireKind::SixtyFourBit => WireType::SixtyFourBit,
        WireKind::LengthDelimited => WireType::LengthDelimited,
        WireKind::StartGroup => WireType::StartGroup,
        WireKind::EndGroup => WireType::EndGroup,
        WireKind::ThirtyTwoBit => WireType::ThirtyTwoBit,
    };
    prost::encoding::bool::merge(wire_type, value, &mut rest, DecodeContext::default())?;
    Ok(rest.len())
}

/// Calls `prost::encoding::string::merge`: with the length-delimited wire
/// type, it reads a length-delimited chunk and, where the chunk is valid
/// UTF-8, replaces `value` by the text it encodes; otherwise it fails.
#[verifier::external_body]
pub(crate) fn take_string(kind: WireKind, value: &mut String, buf: &[u8]) -> (res: Result<
    usize,
    DecodeError,
>)
    ensures
        match spec_string_field(kind, buf@) {
            Some((t, r)) => res matches Ok(r2) && r2 == r && final(value)@ == t,
            None => res is Err,
        },
{
    let mut rest = buf;
    let wire_type = match kind {
        WireKind::Varint => WireType::Varint,
        WireKind::SixtyFourBit => WireType::SixtyFourBit,
        WireKind::LengthDelimited => WireType::LengthDelimited,
        WireKind::StartGroup => WireType::StartGroup,
        WireKind::EndGroup => WireType::EndGroup,
        WireKind::ThirtyTwoBit => WireType::ThirtyTwoBit,
    };
    prost::encoding::string::merge(wire_type, value, &mut rest, DecodeContext::default())?;
    Ok(rest.len())
}

/// Calls `prost::encoding::bytes::merge` on a `Vec<u8>`: with the
/// length-delimited wire type, it reads a length-delimited chunk and replaces
/// `value` by its bytes; otherwise it fails.
#[verifier::external_body]
pub(crate) fn take_bytes(kind: WireKind, value: &mut Vec<u8>, buf: &[u8]) -> (res: Result<
    usize,
    DecodeError,
>)
    ensures
        match spec_chunk_field(kind, buf@) {
            Some((c, r)) => res matches Ok(r2) && r2 == r && final(value)@ == c,
            None => res is Err,
        },
{
    let mut rest = buf;
    let wire_type = match kind {
        WireKind::Varint => WireType::Varint,
        WireKind::SixtyFourBit => WireType::SixtyFourBit,
        WireKind::LengthDelimited => WireType::LengthDelimited,
        WireKind::StartGroup => WireType::StartGroup,
        WireKind::EndGroup => WireType::EndGroup,
        WireKind::ThirtyTwoBit => WireType::ThirtyTwoBit,
    };
    prost::encoding::bytes::merge(wire_type, value, &mut rest, DecodeContext::default())?;
    Ok(rest.len())
}

} // verus!
