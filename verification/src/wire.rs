//! The protobuf wire format as this crate uses it: varints, field keys and
//! length-delimited chunks, stated as spec functions, and the `prost`
//! encoding primitives that read and write them.
use vstd::prelude::*;
use vstd::utf8::*;

verus! {

/// The largest field number that a protobuf key can carry.
pub const MAX_TAG: u32 = 536870911;

/// The wire type of a protobuf field, as carried in the low three bits of its
/// key.
#[derive(Debug, Clone, Copy, PartialEq, Eq, Structural)]
pub enum WireKind {
    Varint,
    SixtyFourBit,
    LengthDelimited,
    StartGroup,
    EndGroup,
    ThirtyTwoBit,
}

/// The number that encodes a wire type in a key.
pub open spec fn wire_number(k: WireKind) -> u64 {
    match k {
        WireKind::Varint => 0,
        WireKind::SixtyFourBit => 1,
        WireKind::LengthDelimited => 2,
        WireKind::StartGroup => 3,
        WireKind::EndGroup => 4,
        WireKind::ThirtyTwoBit => 5,
    }
}

/// The wire type that a key's low three bits name, if any.
pub open spec fn wire_kind_of(n: u64) -> Option<WireKind> {
    if n == 0 {
        Some(WireKind::Varint)
    } else if n == 1 {
        Some(WireKind::SixtyFourBit)
    } else if n == 2 {
        Some(WireKind::LengthDelimited)
    } else if n == 3 {
        Some(WireKind::StartGroup)
    } else if n == 4 {
        Some(WireKind::EndGroup)
    } else if n == 5 {
        Some(WireKind::ThirtyTwoBit)
    } else {
        None
    }
}

/// `128` to the power `i`.
pub open spec fn pow128(i: nat) -> nat
    decreases i,
{
    if i == 0 {
        1
    } else {
        128 * pow128((i - 1) as nat)
    }
}

/// LEB128 encoding of `v`: seven bits per byte, least significant first, the
/// high bit set on every byte but the last.
pub open spec fn spec_varint(v: u64) -> Seq<u8>
    decreases v,
{
    if v < 128 {
        seq![v as u8]
    } else {
        seq![(v % 128 + 128) as u8] + spec_varint(v / 128)
    }
}

/// Reads a varint from byte `i` on, with `acc` holding the value of the bytes
/// before `i`. At most ten bytes are read, and the tenth may only be 0 or 1.
pub open spec fn varint_from(s: Seq<u8>, i: nat, acc: int) -> Option<(u64, nat)>
    decreases 10 - i,
{
    if i >= 10 || i >= s.len() {
        None
    } else {
        let b = s[i as int];
        let acc2 = acc + (b % 128) * pow128(i);
        if i == 9 && b >= 2 {
            None
        } else if b < 128 {
            Some((acc2 as u64, i + 1))
        } else {
            varint_from(s, i + 1, acc2)
        }
    }
}

/// The varint at the start of `s` and the number of bytes it takes, if `s`
/// starts with a valid one.
pub open spec fn spec_parse_varint(s: Seq<u8>) -> Option<(u64, nat)> {
    varint_from(s, 0, 0)
}

/// The key of field `tag` with wire type `k`.
pub open spec fn spec_key(tag: u32, k: WireKind) -> Seq<u8> {
    spec_varint((tag * 8 + wire_number(k)) as u64)
}

/// The field key at the start of `s`: its tag, its wire type and the number
/// of bytes it takes. A key must fit in 32 bits, name a known wire type and a
/// tag of at least 1.
pub open spec fn spec_parse_key(s: Seq<u8>) -> Option<(u32, WireKind, nat)> {
    match spec_parse_varint(s) {
        None => None,
        Some((key, n)) => {
            if key > u32::MAX {
                None
            } else {
                match wire_kind_of(key % 8) {
                    None => None,
                    Some(k) => {
                        if key / 8 < 1 {
                            None
                        } else {
                            Some(((key / 8) as u32, k, n))
                        }
                    },
                }
            }
        },
    }
}

/// The length-delimited chunk at the start of `s` and the number of bytes
/// that it takes with its length prefix.
pub open spec fn spec_length_delimited(s: Seq<u8>) -> Option<(Seq<u8>, nat)> {
    match spec_parse_varint(s) {
        None => None,
        Some((len, n)) => {
            if len <= s.len() - n {
                Some((s.subrange(n as int, n + len), (n + len) as nat))
            } else {
                None
            }
        },
    }
}

/// The two's complement bits of `v`, as `v as u64` gives them.
pub open spec fn i64_bits(v: i64) -> u64 {
    if v >= 0 {
        v as u64
    } else {
        (v + 0x1_0000_0000_0000_0000) as u64
    }
}

/// The `i64` whose two's complement bits are `x`, as `x as i64` gives it.
pub open spec fn u64_to_i64(x: u64) -> i64 {
    if x < 0x8000_0000_0000_0000 {
        x as i64
    } else {
        (x - 0x1_0000_0000_0000_0000) as i64
    }
}

/// The `i32` of the low 32 bits of `x`, as `x as i32` gives it.
pub open spec fn u64_to_i32(x: u64) -> i32 {
    let low = x % 0x1_0000_0000;
    if low < 0x8000_0000 {
        low as i32
    } else {
        (low - 0x1_0000_0000) as i32
    }
}


/// A varint field's value and the length of the input left after it; the
/// field must have the varint wire type.
pub open spec fn spec_varint_field(k: WireKind, s: Seq<u8>) -> Option<(u64, nat)> {
    if k == WireKind::Varint {
        match spec_parse_varint(s) {
            Some((x, n)) => Some((x, (s.len() - n) as nat)),
            None => None,
        }
    } else {
        None
    }
}

/// A length-delimited field's bytes and the length of the input left after
/// it; the field must have the length-delimited wire type.
pub open spec fn spec_chunk_field(k: WireKind, s: Seq<u8>) -> Option<(Seq<u8>, nat)> {
    if k == WireKind::LengthDelimited {
        match spec_length_delimited(s) {
            Some((c, n)) => Some((c, (s.len() - n) as nat)),
            None => None,
        }
    } else {
        None
    }
}

/// A string field's text and the length of the input left after it; its bytes
/// must be valid UTF-8.
pub open spec fn spec_string_field(k: WireKind, s: Seq<u8>) -> Option<(Seq<char>, nat)> {
    match spec_chunk_field(k, s) {
        Some((c, r)) => {
            if valid_utf8(c) {
                Some((decode_utf8(c), r))
            } else {
                None
            }
        },
        None => None,
    }
}

/// The encoding of a varint field `tag` holding the bits `x`.
pub open spec fn spec_varint_entry(tag: u32, x: u64) -> Seq<u8> {
    spec_key(tag, WireKind::Varint) + spec_varint(x)
}

/// The encoding of a length-delimited field `tag` holding the bytes `c`.
pub open spec fn spec_chunk_entry(tag: u32, c: Seq<u8>) -> Seq<u8> {
    spec_key(tag, WireKind::LengthDelimited) + spec_varint(c.len() as u64) + c
}

/// The encoding of a string field `tag` holding the text `t`.
pub open spec fn spec_string_entry(tag: u32, t: Seq<char>) -> Seq<u8> {
    spec_chunk_entry(tag, encode_utf8(t))
}

/// The bits that a `bool` field is written as.
pub open spec fn bool_bits(b: bool) -> u64 {
    if b {
        1
    } else {
        0
    }
}

proof fn lemma_pow128_facts(i: nat)
    ensures
        pow128(i) >= 1,
        pow128(i + 1) == 128 * pow128(i),
        i == 9 ==> pow128(i) == 0x8000_0000_0000_0000,
        i >= 10 ==> pow128(i) >= 0x1_0000_0000_0000_0000,
    decreases i,
{
    if i > 0 {
        lemma_pow128_facts((i - 1) as nat);
    }
    if i == 9 {
        reveal_with_fuel(pow128, 10);
    }
    if i == 10 {
        reveal_with_fuel(pow128, 11);
    }
}

proof fn lemma_varint_len(v: u64)
    ensures
        1 <= spec_varint(v).len() <= 10,
        v < 128 ==> spec_varint(v).len() == 1,
{
    assert(pow128(0) == 1);
    assert(v * pow128(0) == v);
    lemma_varint_len_bound(v, 0);
}

proof fn lemma_varint_len_bound(v: u64, i: nat)
    requires
        v * pow128(i) < 0x1_0000_0000_0000_0000 || v == 0,
        i < 10,
    ensures
        1 <= spec_varint(v).len() <= 10 - i,
    decreases v,
{
    lemma_pow128_facts(i);
    if v >= 128 {
        lemma_pow128_facts(i + 1);
        assert((v / 128) * pow128(i + 1) <= v * pow128(i)) by (nonlinear_arith)
            requires
                pow128(i + 1) == 128 * pow128(i),
                v >= 128,
        ;
        assert(i + 1 < 10) by {
            if i + 1 >= 10 {
                lemma_pow128_facts(i + 1);
                assert(v * pow128(i) >= pow128(i + 1)) by (nonlinear_arith)
                    requires
                        pow128(i + 1) == 128 * pow128(i),
                        v >= 128,
                ;
            }
        }
        lemma_varint_len_bound(v / 128, i + 1);
    }
}

proof fn lemma_varint_from_encoded(s: Seq<u8>, i: nat, acc: int, w: u64)
    requires
        i < 10,
        i + spec_varint(w).len() <= s.len(),
        s.subrange(i as int, (i + spec_varint(w).len()) as int) == spec_varint(w),
        0 <= acc < pow128(i),
        acc + w * pow128(i) < 0x1_0000_0000_0000_0000,
    ensures
        varint_from(s, i, acc) == Some(((acc + w * pow128(i)) as u64, i + spec_varint(w).len())),
    decreases w,
{
    lemma_pow128_facts(i);
    let b = s[i as int];
    assert(b == spec_varint(w)[0]);
    if w < 128 {
        assert(b == w);
        if i == 9 {
            assert(w < 2) by (nonlinear_arith)
                requires
                    acc >= 0,
                    acc + w * 0x8000_0000_0000_0000int < 0x1_0000_0000_0000_0000int,
            ;
        }
    } else {
        let w2 = w / 128;
        assert(b == (w % 128 + 128) as u8);
        assert(b % 128 == w % 128);
        assert(spec_varint(w) == seq![b] + spec_varint(w2));
        let acc2 = acc + (b % 128) * pow128(i);
        lemma_pow128_facts(i + 1);
        assert(w * pow128(i) >= 128 * pow128(i)) by (nonlinear_arith)
            requires
                w >= 128,
        ;
        assert(i + 1 < 10) by {
            if i == 9 {
                assert(pow128(i) * 128 >= 0x1_0000_0000_0000_0000);
            }
        }
        assert(acc2 < pow128(i + 1)) by (nonlinear_arith)
            requires
                acc2 == acc + (w % 128) * pow128(i),
                acc < pow128(i),
                pow128(i + 1) == 128 * pow128(i),
                w % 128 < 128,
        ;
        assert(acc2 + w2 * pow128(i + 1) == acc + w * pow128(i)) by (nonlinear_arith)
            requires
                acc2 == acc + (w % 128) * pow128(i),
                pow128(i + 1) == 128 * pow128(i),
                w == 128 * w2 + w % 128,
        ;
        assert(s.subrange(i + 1 as int, (i + 1 + spec_varint(w2).len()) as int) =~= spec_varint(w2)) by {
            assert forall|j: int| 0 <= j < spec_varint(w2).len() implies s[i + 1 + j]
                == spec_varint(w2)[j] by {
                assert(s.subrange(i as int, (i + spec_varint(w).len()) as int)[1 + j] == spec_varint(w)[1
                    + j]);
            }
        }
        lemma_varint_from_encoded(s, i + 1, acc2, w2);
    }
}

/// A varint written by `spec_varint` reads back as the same value, taking all
/// of its bytes and nothing after them.
pub proof fn lemma_parse_varint_encoded(v: u64, rest: Seq<u8>)
    ensures
        spec_parse_varint(spec_varint(v) + rest) == Some((v, spec_varint(v).len())),
        1 <= spec_varint(v).len() <= 10,
{
    lemma_varint_len(v);
    let s = spec_varint(v) + rest;
    assert(s.subrange(0, spec_varint(v).len() as int) =~= spec_varint(v));
    lemma_pow128_facts(0);
    lemma_varint_from_encoded(s, 0, 0, v);
}

proof fn lemma_varint_from_consumes(s: Seq<u8>, i: nat, acc: int)
    ensures
        varint_from(s, i, acc) matches Some((v, n)) ==> i < n <= s.len() && n <= 10,
    decreases 10 - i,
{
    if i < 10 && i < s.len() {
        lemma_varint_from_consumes(s, i + 1, acc + (s[i as int] % 128) * pow128(i));
    }
}

/// A varint that reads takes at least one byte and no more than the input
/// holds.
pub proof fn lemma_parse_varint_consumes(s: Seq<u8>)
    ensures
        spec_parse_varint(s) matches Some((v, n)) ==> 1 <= n <= s.len(),
{
    lemma_varint_from_consumes(s, 0, 0);
}

/// A key that reads takes at least one byte and no more than the input holds.
pub proof fn lemma_parse_key_consumes(s: Seq<u8>)
    ensures
        spec_parse_key(s) matches Some((t, k, n)) ==> 1 <= n <= s.len(),
{
    lemma_parse_varint_consumes(s);
}

/// The tag of a key that reads is a valid field number.
pub proof fn lemma_parse_key_tag(s: Seq<u8>)
    ensures
        spec_parse_key(s) matches Some((t, k, n)) ==> 1 <= t <= MAX_TAG,
{
}

/// A length-delimited chunk that reads takes at least its prefix's byte and no
/// more than the input holds.
pub proof fn lemma_length_delimited_consumes(s: Seq<u8>)
    ensures
        spec_length_delimited(s) matches Some((c, n)) ==> 1 <= n <= s.len() && c.len() < n,
{
    lemma_parse_varint_consumes(s);
}

/// A key written by `spec_key` reads back as the same tag and wire type.
pub proof fn lemma_parse_key_encoded(tag: u32, k: WireKind, rest: Seq<u8>)
    requires
        1 <= tag <= MAX_TAG,
    ensures
        spec_parse_key(spec_key(tag, k) + rest) == Some((tag, k, spec_key(tag, k).len())),
{
    let key = (tag * 8 + wire_number(k)) as u64;
    lemma_parse_varint_encoded(key, rest);
    assert(key % 8 == wire_number(k));
    assert(key / 8 == tag);
}

/// A length-delimited chunk written as its length's varint and its bytes
/// reads back as the same chunk.
pub proof fn lemma_length_delimited_encoded(chunk: Seq<u8>, rest: Seq<u8>)
    requires
        chunk.len() <= u64::MAX,
    ensures
        spec_length_delimited(spec_varint(chunk.len() as u64) + chunk + rest) == Some(
            (chunk, spec_varint(chunk.len() as u64).len() + chunk.len()),
        ),
{
    let p = spec_varint(chunk.len() as u64);
    lemma_parse_varint_encoded(chunk.len() as u64, chunk + rest);
    assert(p + chunk + rest =~= p + (chunk + rest));
    let s = p + chunk + rest;
    assert(s.subrange(p.len() as int, (p.len() + chunk.len()) as int) =~= chunk);
}

} // verus!
