//! Skipping unknown fields at a nesting depth, and checking that a nested
//! message whose fields are not known here is a well-formed field sequence.
//!
//! `prost` gives each decode a budget of nested messages and groups; every
//! nested message spends one level of it, and `skip_field` can only be called
//! from outside `prost` with the full budget. A field at depth `d` is
//! therefore skipped twice: once with the full budget, which finds where it
//! ends, and once more framed inside `d` groups, which spends `d` levels
//! first, so that it is accepted only where `prost` itself would accept it
//! at that depth.
use crate::wire::{
    lemma_parse_key_consumes, lemma_parse_key_tag, spec_key, spec_parse_key, wire_number,
    WireKind, MAX_TAG,
};
use crate::wire_io::{put_key, skip_unknown, spec_skip_field, take_key};
use prost::DecodeError;
use vstd::prelude::*;
use vstd::slice::{slice_subrange, slice_to_vec};

verus! {

/// `n` copies of the key of field `tag` with wire type `k`.
pub open spec fn repeated_key(n: nat, tag: u32, k: WireKind) -> Seq<u8>
    decreases n,
{
    if n == 0 {
        Seq::empty()
    } else {
        repeated_key((n - 1) as nat, tag, k) + spec_key(tag, k)
    }
}

/// The field with key (`tag`, `k`) and bytes `field`, inside `depth` groups
/// of field 1; the key of the outermost group is left out, as `skip_field`
/// is called just after it.
pub open spec fn group_frame(depth: nat, tag: u32, k: WireKind, field: Seq<u8>) -> Seq<u8> {
    repeated_key((depth - 1) as nat, 1, WireKind::StartGroup) + spec_key(tag, k) + field
        + repeated_key(depth, 1, WireKind::EndGroup)
}

/// Skipping the field with key (`tag`, `k`) at the start of `s`, `depth`
/// nested messages below the top: the length of the input left after it, or
/// `None` where `prost` would fail at that depth.
pub open spec fn spec_skip_at(depth: nat, k: WireKind, tag: u32, s: Seq<u8>) -> Option<nat> {
    match spec_skip_field(wire_number(k), tag, s) {
        None => None,
        Some(r) => {
            if depth == 0 {
                Some(r)
            } else if r <= s.len() && spec_skip_field(
                wire_number(WireKind::StartGroup),
                1,
                group_frame(depth, tag, k, s.subrange(0, s.len() - r)),
            ) is Some {
                Some(r)
            } else {
                None
            }
        },
    }
}

/// Appends `n` copies of the key of field 1 with wire type `k`.
fn put_repeated_key(n: usize, k: WireKind, buf: &mut Vec<u8>)
    ensures
        final(buf)@ == old(buf)@ + repeated_key(n as nat, 1, k),
{
    let ghost start = buf@;
    let mut i: usize = 0;
    assert(buf@ =~= start + repeated_key(0, 1, k));
    while i < n
        invariant
            i <= n,
            buf@ == start + repeated_key(i as nat, 1, k),
        decreases n - i,
    {
        put_key(1, k, buf);
        assert(buf@ =~= start + repeated_key((i + 1) as nat, 1, k));
        i = i + 1;
    }
}

/// Skips the field with key (`tag`, `kind`) at the start of `buf`, `depth`
/// nested messages below the top.
pub fn skip_field_at(depth: usize, kind: WireKind, tag: u32, buf: &[u8]) -> (res: Result<
    usize,
    DecodeError,
>)
    requires
        1 <= tag <= MAX_TAG,
    ensures
        match spec_skip_at(depth as nat, kind, tag, buf@) {
            Some(r) => res matches Ok(r2) && r2 == r,
            None => res is Err,
        },
        res matches Ok(r) ==> r <= buf.len(),
{
    let r = skip_unknown(kind, tag, buf)?;
    if depth == 0 {
        return Ok(r);
    }
    let mut frame: Vec<u8> = Vec::new();
    put_repeated_key(depth - 1, WireKind::StartGroup, &mut frame);
    put_key(tag, kind, &mut frame);
    let mut field = slice_to_vec(slice_subrange(buf, 0, buf.len() - r));
    frame.append(&mut field);
    put_repeated_key(depth, WireKind::EndGroup, &mut frame);
    assert(frame@ =~= group_frame(depth as nat, tag, kind, buf@.subrange(0, buf.len() - r)));
    skip_unknown(WireKind::StartGroup, 1, frame.as_slice())?;
    Ok(r)
}

/// Whether `s` is a sequence of fields that all skip, `depth` nested
/// messages below the top.
pub open spec fn spec_fields_ok(s: Seq<u8>, depth: nat) -> bool
    decreases s.len(),
{
    if s.len() == 0 {
        true
    } else {
        match spec_parse_key(s) {
            None => false,
            Some((tag, k, n)) => match spec_skip_at(depth, k, tag, s.skip(n as int)) {
                None => false,
                Some(r) => r < s.len() && spec_fields_ok(s.skip(s.len() - r), depth),
            },
        }
    }
}

/// Checks that `bytes` is a sequence of fields that all skip, `depth`
/// nested messages below the top.
pub fn check_fields(bytes: &[u8], depth: usize) -> (res: Result<(), DecodeError>)
    ensures
        res is Ok <==> spec_fields_ok(bytes@, depth as nat),
{
    let mut pos: usize = 0;
    assert(bytes@.skip(0) =~= bytes@);
    while pos < bytes.len()
        invariant
            pos <= bytes.len(),
            spec_fields_ok(bytes@, depth as nat) == spec_fields_ok(
                bytes@.skip(pos as int),
                depth as nat,
            ),
        decreases bytes.len() - pos,
    {
        let rest = slice_subrange(bytes, pos, bytes.len());
        let ghost s = rest@;
        assert(s =~= bytes@.skip(pos as int));
        let (tag, kind, r1) = take_key(rest)?;
        proof {
            lemma_parse_key_consumes(s);
            lemma_parse_key_tag(s);
        }
        let body = slice_subrange(rest, rest.len() - r1, rest.len());
        assert(body@ =~= s.skip(s.len() - r1));
        let r2 = skip_field_at(depth, kind, tag, body)?;
        assert(bytes@.skip(bytes.len() - r2) =~= s.skip(s.len() - r2));
        pos = bytes.len() - r2;
    }
    Ok(())
}

} // verus!
