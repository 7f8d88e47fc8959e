//! Reading back what was written: each message decodes from its own encoding
//! to the value that was encoded, provided that the nested messages a version
//! keeps as bytes are well-formed field sequences (`spec_nested_ok`), as
//! decoding checks them.
use crate::proto::{
    default_file, default_history, default_info, default_version, info_with_text,
    is_info_text_tag, joined, opt_chunk_entry, opt_string_entry, opt_varint_entry,
    spec_decode_file, spec_encode_file, spec_encode_history, spec_encode_info, spec_encode_version,
    spec_encode_versions, spec_merge_file, spec_merge_history, spec_merge_info, spec_merge_version,
    spec_file_nested_ok, spec_nested_ok, HistoryView, InfoView, VersionFileView, VersionInfoView,
};
use crate::wire::{
    bool_bits, i64_bits, lemma_length_delimited_encoded, lemma_parse_key_encoded,
    lemma_parse_varint_encoded, spec_chunk_entry, spec_chunk_field, spec_key, spec_parse_key,
    spec_string_entry, spec_string_field, spec_varint, spec_varint_entry, spec_varint_field,
    u64_to_i32, u64_to_i64, WireKind, MAX_TAG,
};
use vstd::prelude::*;
use vstd::utf8::{encode_utf8, encode_utf8_decode_utf8, encode_utf8_valid_utf8};

verus! {

/// A length-delimited entry followed by `rest`: its key reads as `tag`, its
/// chunk as `c`, and what is left is `rest`.
pub(crate) proof fn lemma_chunk_entry_parts(tag: u32, c: Seq<u8>, rest: Seq<u8>)
    requires
        1 <= tag <= MAX_TAG,
        c.len() <= u64::MAX,
    ensures
        ({
            let s = spec_chunk_entry(tag, c) + rest;
            let n = spec_key(tag, WireKind::LengthDelimited).len();
            &&& spec_parse_key(s) == Some((tag, WireKind::LengthDelimited, n))
            &&& spec_chunk_field(WireKind::LengthDelimited, s.skip(n as int)) == Some(
                (c, rest.len()),
            )
            &&& rest.len() < s.len()
            &&& s.skip(s.len() - rest.len()) == rest
        }),
{
    let key = spec_key(tag, WireKind::LengthDelimited);
    let p = spec_varint(c.len() as u64);
    let s = spec_chunk_entry(tag, c) + rest;
    assert(s =~= key + (p + c + rest));
    lemma_parse_key_encoded(tag, WireKind::LengthDelimited, p + c + rest);
    assert(s.skip(key.len() as int) =~= p + c + rest);
    lemma_length_delimited_encoded(c, rest);
    assert(s.skip(s.len() - rest.len()) =~= rest);
}

/// A varint entry followed by `rest`: its key reads as `tag`, its value as
/// `x`, and what is left is `rest`.
pub(crate) proof fn lemma_varint_entry_parts(tag: u32, x: u64, rest: Seq<u8>)
    requires
        1 <= tag <= MAX_TAG,
    ensures
        ({
            let s = spec_varint_entry(tag, x) + rest;
            let n = spec_key(tag, WireKind::Varint).len();
            &&& spec_parse_key(s) == Some((tag, WireKind::Varint, n))
            &&& spec_varint_field(WireKind::Varint, s.skip(n as int)) == Some((x, rest.len()))
            &&& rest.len() < s.len()
            &&& s.skip(s.len() - rest.len()) == rest
        }),
{
    let key = spec_key(tag, WireKind::Varint);
    let s = spec_varint_entry(tag, x) + rest;
    assert(s =~= key + (spec_varint(x) + rest));
    lemma_parse_key_encoded(tag, WireKind::Varint, spec_varint(x) + rest);
    assert(s.skip(key.len() as int) =~= spec_varint(x) + rest);
    lemma_parse_varint_encoded(x, rest);
    assert(s.skip(s.len() - rest.len()) =~= rest);
}

/// A string entry followed by `rest`: its key reads as `tag`, its text as
/// `t`, and what is left is `rest`.
pub(crate) proof fn lemma_string_entry_parts(tag: u32, t: Seq<char>, rest: Seq<u8>)
    requires
        1 <= tag <= MAX_TAG,
        encode_utf8(t).len() <= u64::MAX,
    ensures
        ({
            let s = spec_string_entry(tag, t) + rest;
            let n = spec_key(tag, WireKind::LengthDelimited).len();
            &&& spec_parse_key(s) == Some((tag, WireKind::LengthDelimited, n))
            &&& spec_string_field(WireKind::LengthDelimited, s.skip(n as int)) == Some(
                (t, rest.len()),
            )
            &&& rest.len() < s.len()
            &&& s.skip(s.len() - rest.len()) == rest
        }),
{
    lemma_chunk_entry_parts(tag, encode_utf8(t), rest);
    encode_utf8_valid_utf8(t);
    encode_utf8_decode_utf8(t);
}

/// The two's complement bits of an `i64` read back as the same `i64`.
proof fn lemma_i64_bits(v: i64)
    ensures
        u64_to_i64(i64_bits(v)) == v,
        (i64_bits(v) == 0) == (v == 0),
{
}

/// The sign-extended bits of an `i32` read back as the same `i32`.
proof fn lemma_i32_bits(v: i32)
    ensures
        u64_to_i32(i64_bits(v as i64)) == v,
        (i64_bits(v as i64) == 0) == (v == 0),
{
    if v < 0 {
        let x = i64_bits(v as i64);
        assert(x == 0x1_0000_0000_0000_0000int + v);
        assert(x % 0x1_0000_0000 == 0x1_0000_0000int + v) by (nonlinear_arith)
            requires
                x == 0x1_0000_0000_0000_0000int + v,
                -0x8000_0000 <= v < 0,
        ;
    }
}

proof fn lemma_info_text_step(tag: u32, t: Seq<char>, rest: Seq<u8>, acc: InfoView)
    requires
        is_info_text_tag(tag),
        encode_utf8(t).len() <= u64::MAX,
        t.len() == 0 ==> info_with_text(acc, tag, t) == acc,
    ensures
        spec_merge_info(opt_string_entry(tag, t) + rest, acc) == spec_merge_info(
            rest,
            info_with_text(acc, tag, t),
        ),
{
    if t.len() == 0 {
        assert(opt_string_entry(tag, t) + rest =~= rest);
    } else {
        lemma_string_entry_parts(tag, t, rest);
    }
}

proof fn lemma_info_varint_step(tag: u32, x: u64, rest: Seq<u8>, acc: InfoView, acc2: InfoView)
    requires
        tag == 4 || tag == 5 || tag == 8,
        tag == 4 ==> acc2 == (InfoView { is_deleted: x != 0, ..acc }),
        tag == 5 ==> acc2 == (InfoView { dimension: u64_to_i32(x), ..acc }),
        tag == 8 ==> acc2 == (InfoView { collection_creation_secs: u64_to_i64(x), ..acc }),
        x == 0 ==> acc2 == acc,
    ensures
        spec_merge_info(opt_varint_entry(tag, x) + rest, acc) == spec_merge_info(rest, acc2),
{
    if x == 0 {
        assert(opt_varint_entry(tag, x) + rest =~= rest);
    } else {
        lemma_varint_entry_parts(tag, x, rest);
    }
}

/// A `CollectionInfoImmutable` reads back from its encoding as the same
/// value.
pub proof fn lemma_info_roundtrip(v: InfoView)
    requires
        spec_encode_info(v).len() <= u64::MAX,
    ensures
        spec_merge_info(spec_encode_info(v), default_info()) == Some(v),
{
    let e1 = opt_string_entry(1, v.tenant_id);
    let e2 = opt_string_entry(2, v.database_id);
    let e3 = opt_string_entry(3, v.database_name);
    let e4 = opt_varint_entry(4, bool_bits(v.is_deleted));
    let e5 = opt_varint_entry(5, i64_bits(v.dimension as i64));
    let e6 = opt_string_entry(6, v.collection_id);
    let e7 = opt_string_entry(7, v.collection_name);
    let e8 = opt_varint_entry(8, i64_bits(v.collection_creation_secs));
    let r7 = e8;
    let r6 = e7 + r7;
    let r5 = e6 + r6;
    let r4 = e5 + r5;
    let r3 = e4 + r4;
    let r2 = e3 + r3;
    let r1 = e2 + r2;
    assert(spec_encode_info(v) == e1 + r1);
    let a0 = default_info();
    let a1 = info_with_text(a0, 1, v.tenant_id);
    let a2 = info_with_text(a1, 2, v.database_id);
    let a3 = info_with_text(a2, 3, v.database_name);
    let a4 = InfoView { is_deleted: bool_bits(v.is_deleted) != 0, ..a3 };
    let a5 = InfoView { dimension: u64_to_i32(i64_bits(v.dimension as i64)), ..a4 };
    let a6 = info_with_text(a5, 6, v.collection_id);
    let a7 = info_with_text(a6, 7, v.collection_name);
    let a8 = InfoView { collection_creation_secs: u64_to_i64(i64_bits(v.collection_creation_secs)), ..a7 };
    lemma_i32_bits(v.dimension);
    lemma_i64_bits(v.collection_creation_secs);
    assert(encode_utf8(v.tenant_id).len() <= spec_string_entry(1, v.tenant_id).len());
    assert(encode_utf8(v.database_id).len() <= spec_string_entry(2, v.database_id).len());
    assert(encode_utf8(v.database_name).len() <= spec_string_entry(3, v.database_name).len());
    assert(encode_utf8(v.collection_id).len() <= spec_string_entry(6, v.collection_id).len());
    assert(encode_utf8(v.collection_name).len() <= spec_string_entry(7, v.collection_name).len());
    assert(v.tenant_id.len() == 0 ==> v.tenant_id =~= Seq::<char>::empty());
    assert(v.database_id.len() == 0 ==> v.database_id =~= Seq::<char>::empty());
    assert(v.database_name.len() == 0 ==> v.database_name =~= Seq::<char>::empty());
    assert(v.collection_id.len() == 0 ==> v.collection_id =~= Seq::<char>::empty());
    assert(v.collection_name.len() == 0 ==> v.collection_name =~= Seq::<char>::empty());
    lemma_info_text_step(1, v.tenant_id, r1, a0);
    lemma_info_text_step(2, v.database_id, r2, a1);
    lemma_info_text_step(3, v.database_name, r3, a2);
    lemma_info_varint_step(4, bool_bits(v.is_deleted), r4, a3, a4);
    lemma_info_varint_step(5, i64_bits(v.dimension as i64), r5, a4, a5);
    lemma_info_text_step(6, v.collection_id, r6, a5);
    lemma_info_text_step(7, v.collection_name, r7, a6);
    lemma_info_varint_step(8, i64_bits(v.collection_creation_secs), Seq::empty(), a7, a8);
    assert(e8 + Seq::<u8>::empty() =~= e8);
    assert(a8 == v);
}

proof fn lemma_version_varint_step(
    tag: u32,
    x: u64,
    rest: Seq<u8>,
    acc: VersionInfoView,
    acc2: VersionInfoView,
)
    requires
        tag == 1 || tag == 4 || tag == 5 || tag == 7,
        tag == 1 ==> acc2 == (VersionInfoView { version: u64_to_i64(x), ..acc }),
        tag == 4 ==> acc2 == (VersionInfoView { created_at_secs: u64_to_i64(x), ..acc }),
        tag == 5 ==> acc2 == (VersionInfoView { version_change_reason: u64_to_i32(x), ..acc }),
        tag == 7 ==> acc2 == (VersionInfoView { marked_for_deletion: x != 0, ..acc }),
        x == 0 ==> acc2 == acc,
    ensures
        spec_merge_version(opt_varint_entry(tag, x) + rest, acc) == spec_merge_version(rest, acc2),
{
    if x == 0 {
        assert(opt_varint_entry(tag, x) + rest =~= rest);
    } else {
        lemma_varint_entry_parts(tag, x, rest);
    }
}

proof fn lemma_version_chunk_step(
    tag: u32,
    c: Option<Seq<u8>>,
    rest: Seq<u8>,
    acc: VersionInfoView,
    acc2: VersionInfoView,
)
    requires
        tag == 2 || tag == 3,
        c matches Some(b) ==> b.len() <= u64::MAX && crate::nesting::spec_fields_ok(b, 3),
        tag == 2 ==> acc.segment_info is None && acc2 == (VersionInfoView { segment_info: c, ..acc }),
        tag == 3 ==> acc.collection_info_mutable is None && acc2 == (VersionInfoView {
            collection_info_mutable: c,
            ..acc
        }),
    ensures
        spec_merge_version(opt_chunk_entry(tag, c) + rest, acc) == spec_merge_version(rest, acc2),
{
    match c {
        Some(b) => {
            lemma_chunk_entry_parts(tag, b, rest);
            assert(joined(None, b) == b);
        },
        None => {
            assert(opt_chunk_entry(tag, c) + rest =~= rest);
        },
    }
}

/// A `CollectionVersionInfo` whose nested messages are well-formed reads back
/// from its encoding as the same value.
pub proof fn lemma_version_roundtrip(v: VersionInfoView)
    requires
        spec_nested_ok(v),
        spec_encode_version(v).len() <= u64::MAX,
    ensures
        spec_merge_version(spec_encode_version(v), default_version()) == Some(v),
{
    let e1 = opt_varint_entry(1, i64_bits(v.version));
    let e2 = opt_chunk_entry(2, v.segment_info);
    let e3 = opt_chunk_entry(3, v.collection_info_mutable);
    let e4 = opt_varint_entry(4, i64_bits(v.created_at_secs));
    let e5 = opt_varint_entry(5, i64_bits(v.version_change_reason as i64));
    let e6 = opt_string_entry(6, v.version_file_name);
    let e7 = opt_varint_entry(7, bool_bits(v.marked_for_deletion));
    let r6 = e7;
    let r5 = e6 + r6;
    let r4 = e5 + r5;
    let r3 = e4 + r4;
    let r2 = e3 + r3;
    let r1 = e2 + r2;
    assert(spec_encode_version(v) == e1 + r1);
    let a0 = default_version();
    let a1 = VersionInfoView { version: u64_to_i64(i64_bits(v.version)), ..a0 };
    let a2 = VersionInfoView { segment_info: v.segment_info, ..a1 };
    let a3 = VersionInfoView { collection_info_mutable: v.collection_info_mutable, ..a2 };
    let a4 = VersionInfoView { created_at_secs: u64_to_i64(i64_bits(v.created_at_secs)), ..a3 };
    let a5 = VersionInfoView {
        version_change_reason: u64_to_i32(i64_bits(v.version_change_reason as i64)),
        ..a4
    };
    let a6 = VersionInfoView { version_file_name: v.version_file_name, ..a5 };
    let a7 = VersionInfoView { marked_for_deletion: bool_bits(v.marked_for_deletion) != 0, ..a6 };
    lemma_i64_bits(v.version);
    lemma_i64_bits(v.created_at_secs);
    lemma_i32_bits(v.version_change_reason);
    lemma_version_varint_step(1, i64_bits(v.version), r1, a0, a1);
    lemma_version_chunk_step(2, v.segment_info, r2, a1, a2);
    lemma_version_chunk_step(3, v.collection_info_mutable, r3, a2, a3);
    lemma_version_varint_step(4, i64_bits(v.created_at_secs), r4, a3, a4);
    lemma_version_varint_step(5, i64_bits(v.version_change_reason as i64), r5, a4, a5);
    if v.version_file_name.len() == 0 {
        assert(v.version_file_name =~= Seq::<char>::empty());
        assert(e6 + r6 =~= r6);
    } else {
        assert(encode_utf8(v.version_file_name).len() <= e6.len());
        lemma_string_entry_parts(6, v.version_file_name, r6);
    }
    lemma_version_varint_step(7, bool_bits(v.marked_for_deletion), Seq::empty(), a6, a7);
    assert(e7 + Seq::<u8>::empty() =~= e7);
    assert(a7 == v);
}

/// Versions encoded one after the other read back, in order, after those
/// already read.
proof fn lemma_versions_roundtrip(vs: Seq<VersionInfoView>, rest: Seq<u8>, acc: HistoryView)
    requires
        forall|i: int| 0 <= i < vs.len() ==> spec_nested_ok(#[trigger] vs[i]),
        spec_encode_versions(vs).len() <= u64::MAX,
    ensures
        spec_merge_history(spec_encode_versions(vs) + rest, acc) == spec_merge_history(
            rest,
            HistoryView { versions: acc.versions + vs },
        ),
    decreases vs.len(),
{
    if vs.len() == 0 {
        assert(spec_encode_versions(vs) + rest =~= rest);
        assert(acc.versions + vs =~= acc.versions);
    } else {
        let dl = vs.drop_last();
        let last = vs.last();
        let body = spec_encode_version(last);
        let e = spec_chunk_entry(1, body);
        assert(spec_encode_versions(vs) + rest =~= spec_encode_versions(dl) + (e + rest));
        assert(forall|i: int| 0 <= i < dl.len() ==> dl[i] == vs[i]);
        assert(spec_nested_ok(vs[vs.len() - 1]));
        lemma_versions_roundtrip(dl, e + rest, acc);
        let mid = HistoryView { versions: acc.versions + dl };
        lemma_chunk_entry_parts(1, body, rest);
        lemma_version_roundtrip(last);
        assert(mid.versions.push(last) =~= acc.versions + vs);
    }
}

/// A `CollectionVersionHistory` whose versions keep well-formed nested
/// messages reads back from its encoding as the same value.
pub proof fn lemma_history_roundtrip(h: HistoryView)
    requires
        forall|i: int| 0 <= i < h.versions.len() ==> spec_nested_ok(#[trigger] h.versions[i]),
        spec_encode_history(h).len() <= u64::MAX,
    ensures
        spec_merge_history(spec_encode_history(h), default_history()) == Some(h),
{
    lemma_versions_roundtrip(h.versions, Seq::empty(), default_history());
    assert(spec_encode_history(h) + Seq::<u8>::empty() =~= spec_encode_history(h));
    assert(Seq::<VersionInfoView>::empty() + h.versions =~= h.versions);
}

/// A version file reads back from its encoding as the same value: what is
/// written is what a later read gives back, wherever the nested messages kept
/// as bytes are well-formed.
pub proof fn lemma_version_file_roundtrip(f: VersionFileView)
    requires
        spec_file_nested_ok(f),
        spec_encode_file(f).len() <= u64::MAX,
    ensures
        spec_decode_file(spec_encode_file(f)) == Some(f),
{
    let e1 = match f.collection_info_immutable {
        Some(i) => spec_chunk_entry(1, spec_encode_info(i)),
        None => Seq::empty(),
    };
    let e2 = match f.version_history {
        Some(h) => spec_chunk_entry(2, spec_encode_history(h)),
        None => Seq::empty(),
    };
    let a1 = VersionFileView { collection_info_immutable: f.collection_info_immutable, ..default_file() };
    match f.collection_info_immutable {
        Some(i) => {
            lemma_chunk_entry_parts(1, spec_encode_info(i), e2);
            lemma_info_roundtrip(i);
        },
        None => {
            assert(e1 + e2 =~= e2);
        },
    }
    assert(spec_merge_file(e1 + e2, default_file()) == spec_merge_file(e2, a1));
    match f.version_history {
        Some(h) => {
            lemma_chunk_entry_parts(2, spec_encode_history(h), Seq::empty());
            lemma_history_roundtrip(h);
            assert(e2 + Seq::<u8>::empty() =~= e2);
            assert(spec_merge_file(e2, a1) == spec_merge_file(Seq::empty(), f));
        },
        None => {
            assert(e2 =~= Seq::<u8>::empty());
            assert(a1 == f);
        },
    }
}

} // verus!
