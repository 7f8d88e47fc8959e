//! The protobuf messages of a collection version file, their abstract views,
//! and their encoding and decoding.
//!
//! Field numbers:
//! - `CollectionVersionFile`: collection_info_immutable = 1, version_history = 2.
//! - `CollectionInfoImmutable`: tenant_id = 1, database_id = 2,
//!   database_name = 3, is_deleted = 4, dimension = 5, collection_id = 6,
//!   collection_name = 7, collection_creation_secs = 8.
//! - `CollectionVersionHistory`: versions = 1 (repeated).
//! - `CollectionVersionInfo`: version = 1, segment_info = 2,
//!   collection_info_mutable = 3, created_at_secs = 4,
//!   version_change_reason = 5, version_file_name = 6,
//!   marked_for_deletion = 7.
//!
//! A field that holds its default value is not written; an absent field
//! reads as its default. A scalar field that occurs twice keeps its last
//! value; a message field that occurs twice merges both occurrences. The
//! nested `segment_info` and `collection_info_mutable` messages are kept as
//! their encoded bytes: each occurrence must be a well-formed field sequence
//! (see `crate::nesting`), and two occurrences are joined, which is how
//! protobuf merges two encodings of one message. Unknown fields are skipped
//! with the nesting budget that `prost` would have left at their depth.
use crate::wire::{
    bool_bits, i64_bits, lemma_length_delimited_consumes, lemma_parse_key_consumes, lemma_parse_key_tag,
    lemma_parse_varint_consumes, spec_chunk_entry, spec_chunk_field, spec_parse_key,
    spec_string_entry, spec_string_field, spec_varint_entry, spec_varint_field, u64_to_i32,
    u64_to_i64, wire_number, WireKind,
};
use crate::nesting::{check_fields, skip_field_at, spec_fields_ok, spec_skip_at};
use crate::wire_io::{
    put_bool, put_bytes, put_int32, put_int64, put_string, take_bool, take_bytes, take_int32, take_int64, take_key, take_string,
};
use prost::DecodeError;
use vstd::prelude::*;
use vstd::slice::slice_subrange;

verus! {

/// The immutable facts of a collection recorded in its version file.
#[derive(Debug, Clone, PartialEq, Eq)]
pub struct CollectionInfoImmutable {
    pub tenant_id: String,
    pub database_id: String,
    pub database_name: String,
    pub is_deleted: bool,
    pub dimension: i32,
    pub collection_id: String,
    pub collection_name: String,
    pub collection_creation_secs: i64,
}

/// The abstract value of a `CollectionInfoImmutable`.
pub struct InfoView {
    pub tenant_id: Seq<char>,
    pub database_id: Seq<char>,
    pub database_name: Seq<char>,
    pub is_deleted: bool,
    pub dimension: i32,
    pub collection_id: Seq<char>,
    pub collection_name: Seq<char>,
    pub collection_creation_secs: i64,
}

impl View for CollectionInfoImmutable {
    type V = InfoView;

    open spec fn view(&self) -> InfoView {
        InfoView {
            tenant_id: self.tenant_id@,
            database_id: self.database_id@,
            database_name: self.database_name@,
            is_deleted: self.is_deleted,
            dimension: self.dimension,
            collection_id: self.collection_id@,
            collection_name: self.collection_name@,
            collection_creation_secs: self.collection_creation_secs,
        }
    }
}

/// The `CollectionInfoImmutable` with every field at its default.
pub open spec fn default_info() -> InfoView {
    InfoView {
        tenant_id: Seq::empty(),
        database_id: Seq::empty(),
        database_name: Seq::empty(),
        is_deleted: false,
        dimension: 0,
        collection_id: Seq::empty(),
        collection_name: Seq::empty(),
        collection_creation_secs: 0,
    }
}

impl Default for CollectionInfoImmutable {
    fn default() -> (r: Self)
        ensures
            r@ == default_info(),
    {
        CollectionInfoImmutable {
            tenant_id: String::new(),
            database_id: String::new(),
            database_name: String::new(),
            is_deleted: false,
            dimension: 0,
            collection_id: String::new(),
            collection_name: String::new(),
            collection_creation_secs: 0,
        }
    }
}

/// The encoding of string field `tag` holding `t`: nothing when `t` is empty.
pub open spec fn opt_string_entry(tag: u32, t: Seq<char>) -> Seq<u8> {
    if t.len() == 0 {
        Seq::empty()
    } else {
        spec_string_entry(tag, t)
    }
}

/// The encoding of varint field `tag` holding the bits `x`: nothing when `x`
/// is 0.
pub open spec fn opt_varint_entry(tag: u32, x: u64) -> Seq<u8> {
    if x == 0 {
        Seq::empty()
    } else {
        spec_varint_entry(tag, x)
    }
}

/// The encoding of a `CollectionInfoImmutable`.
pub open spec fn spec_encode_info(v: InfoView) -> Seq<u8> {
    opt_string_entry(1, v.tenant_id) + (opt_string_entry(2, v.database_id) + (opt_string_entry(
        3,
        v.database_name,
    ) + (opt_varint_entry(4, bool_bits(v.is_deleted)) + (opt_varint_entry(
        5,
        i64_bits(v.dimension as i64),
    ) + (opt_string_entry(6, v.collection_id) + (opt_string_entry(7, v.collection_name)
        + opt_varint_entry(8, i64_bits(v.collection_creation_secs))))))))
}

/// `acc` with its string field `tag` set to `t`.
pub open spec fn info_with_text(acc: InfoView, tag: u32, t: Seq<char>) -> InfoView {
    if tag == 1 {
        InfoView { tenant_id: t, ..acc }
    } else if tag == 2 {
        InfoView { database_id: t, ..acc }
    } else if tag == 3 {
        InfoView { database_name: t, ..acc }
    } else if tag == 6 {
        InfoView { collection_id: t, ..acc }
    } else {
        InfoView { collection_name: t, ..acc }
    }
}

/// Whether field `tag` of `CollectionInfoImmutable` holds a string.
pub open spec fn is_info_text_tag(tag: u32) -> bool {
    tag == 1 || tag == 2 || tag == 3 || tag == 6 || tag == 7
}

/// Reads one field of a `CollectionInfoImmutable`, whose key (`tag`, `k`) has
/// been read, from `s` into `acc`: the updated value and the length of the
/// input left after the field.
pub open spec fn spec_info_field(tag: u32, k: WireKind, s: Seq<u8>, acc: InfoView) -> Option<
    (InfoView, nat),
> {
    if is_info_text_tag(tag) {
        match spec_string_field(k, s) {
            Some((t, r)) => Some((info_with_text(acc, tag, t), r)),
            None => None,
        }
    } else if tag == 4 {
        match spec_varint_field(k, s) {
            Some((x, r)) => Some((InfoView { is_deleted: x != 0, ..acc }, r)),
            None => None,
        }
    } else if tag == 5 {
        match spec_varint_field(k, s) {
            Some((x, r)) => Some((InfoView { dimension: u64_to_i32(x), ..acc }, r)),
            None => None,
        }
    } else if tag == 8 {
        match spec_varint_field(k, s) {
            Some((x, r)) => Some((InfoView { collection_creation_secs: u64_to_i64(x), ..acc }, r)),
            None => None,
        }
    } else {
        match spec_skip_at(1, k, tag, s) {
            Some(r) => Some((acc, r)),
            None => None,
        }
    }
}

/// Reads the fields of a `CollectionInfoImmutable` from `s` into `acc`, one
/// after the other until `s` is used up.
pub open spec fn spec_merge_info(s: Seq<u8>, acc: InfoView) -> Option<InfoView>
    decreases s.len(),
{
    if s.len() == 0 {
        Some(acc)
    } else {
        match spec_parse_key(s) {
            None => None,
            Some((tag, k, n)) => match spec_info_field(tag, k, s.skip(n as int), acc) {
                None => None,
                Some((acc2, r)) => {
                    if r < s.len() {
                        spec_merge_info(s.skip(s.len() - r), acc2)
                    } else {
                        None
                    }
                },
            },
        }
    }
}

/// Appends string field `tag` holding `t`, unless `t` is empty.
fn put_opt_string(tag: u32, t: &String, buf: &mut Vec<u8>)
    requires
        1 <= tag <= crate::wire::MAX_TAG,
    ensures
        final(buf)@ == old(buf)@ + opt_string_entry(tag, t@),
{
    if !t.as_str().is_empty() {
        put_string(tag, t, buf);
    } else {
        assert(buf@ =~= buf@ + opt_string_entry(tag, t@));
    }
}

/// Appends `bool` field `tag` holding `b`, unless `b` is false.
fn put_opt_bool(tag: u32, b: bool, buf: &mut Vec<u8>)
    requires
        1 <= tag <= crate::wire::MAX_TAG,
    ensures
        final(buf)@ == old(buf)@ + opt_varint_entry(tag, bool_bits(b)),
{
    if b {
        put_bool(tag, b, buf);
    } else {
        assert(buf@ =~= buf@ + opt_varint_entry(tag, bool_bits(b)));
    }
}

/// Appends `int32` field `tag` holding `x`, unless `x` is 0.
fn put_opt_int32(tag: u32, x: i32, buf: &mut Vec<u8>)
    requires
        1 <= tag <= crate::wire::MAX_TAG,
    ensures
        final(buf)@ == old(buf)@ + opt_varint_entry(tag, i64_bits(x as i64)),
{
    if x != 0 {
        put_int32(tag, x, buf);
    } else {
        assert(buf@ =~= buf@ + opt_varint_entry(tag, i64_bits(x as i64)));
    }
}

/// Appends `int64` field `tag` holding `x`, unless `x` is 0.
fn put_opt_int64(tag: u32, x: i64, buf: &mut Vec<u8>)
    requires
        1 <= tag <= crate::wire::MAX_TAG,
    ensures
        final(buf)@ == old(buf)@ + opt_varint_entry(tag, i64_bits(x)),
{
    if x != 0 {
        put_int64(tag, x, buf);
    } else {
        assert(buf@ =~= buf@ + opt_varint_entry(tag, i64_bits(x)));
    }
}

/// Appends the encoding of `v` to `buf`.
pub fn encode_info(v: &CollectionInfoImmutable, buf: &mut Vec<u8>)
    ensures
        final(buf)@ == old(buf)@ + spec_encode_info(v@),
{
    let ghost start = buf@;
    put_opt_string(1, &v.tenant_id, buf);
    put_opt_string(2, &v.database_id, buf);
    put_opt_string(3, &v.database_name, buf);
    put_opt_bool(4, v.is_deleted, buf);
    put_opt_int32(5, v.dimension, buf);
    put_opt_string(6, &v.collection_id, buf);
    put_opt_string(7, &v.collection_name, buf);
    put_opt_int64(8, v.collection_creation_secs, buf);
    proof {
        lemma_join8(
            start,
            opt_string_entry(1, v.tenant_id@),
            opt_string_entry(2, v.database_id@),
            opt_string_entry(3, v.database_name@),
            opt_varint_entry(4, bool_bits(v.is_deleted)),
            opt_varint_entry(5, i64_bits(v.dimension as i64)),
            opt_string_entry(6, v.collection_id@),
            opt_string_entry(7, v.collection_name@),
            opt_varint_entry(8, i64_bits(v.collection_creation_secs)),
        );
    }
}

/// Regrouping of eight appended pieces.
proof fn lemma_join8(
    s: Seq<u8>,
    a: Seq<u8>,
    b: Seq<u8>,
    c: Seq<u8>,
    d: Seq<u8>,
    e: Seq<u8>,
    f: Seq<u8>,
    g: Seq<u8>,
    h: Seq<u8>,
)
    ensures
        s + a + b + c + d + e + f + g + h == s + (a + (b + (c + (d + (e + (f + (g + h))))))),
{
    assert(s + a + b + c + d + e + f + g + h =~= s + (a + (b + (c + (d + (e + (f + (g + h))))))));
}

/// Reads the fields of a `CollectionInfoImmutable` from `bytes` into `acc`.
pub fn merge_info(bytes: &[u8], acc: &mut CollectionInfoImmutable) -> (res: Result<
    (),
    DecodeError,
>)
    ensures
        match spec_merge_info(bytes@, old(acc)@) {
            Some(v) => res is Ok && final(acc)@ == v,
            None => res is Err,
        },
{
    let mut pos: usize = 0;
    assert(bytes@.skip(0) =~= bytes@);
    while pos < bytes.len()
        invariant
            pos <= bytes.len(),
            spec_merge_info(bytes@, old(acc)@) == spec_merge_info(bytes@.skip(pos as int), acc@),
        decreases bytes.len() - pos,
    {
        let rest = slice_subrange(bytes, pos, bytes.len());
        let ghost s = rest@;
        let ghost before = acc@;
        assert(s =~= bytes@.skip(pos as int));
        let (tag, kind, r1) = take_key(rest)?;
        proof {
            lemma_parse_key_consumes(s);
            lemma_parse_key_tag(s);
        }
        let body = slice_subrange(rest, rest.len() - r1, rest.len());
        assert(body@ =~= s.skip(s.len() - r1));
        let r2 = if tag == 1 {
            take_string(kind, &mut acc.tenant_id, body)?
        } else if tag == 2 {
            take_string(kind, &mut acc.database_id, body)?
        } else if tag == 3 {
            take_string(kind, &mut acc.database_name, body)?
        } else if tag == 4 {
            take_bool(kind, &mut acc.is_deleted, body)?
        } else if tag == 5 {
            take_int32(kind, &mut acc.dimension, body)?
        } else if tag == 6 {
            take_string(kind, &mut acc.collection_id, body)?
        } else if tag == 7 {
            take_string(kind, &mut acc.collection_name, body)?
        } else if tag == 8 {
            take_int64(kind, &mut acc.collection_creation_secs, body)?
        } else {
            skip_field_at(1, kind, tag, body)?
        };
        proof {
            lemma_parse_varint_consumes(body@);
            lemma_length_delimited_consumes(body@);
            assert(spec_info_field(tag, kind, body@, before) == Some((acc@, r2 as nat)));
            assert(bytes@.skip(bytes.len() - r2) =~= s.skip(s.len() - r2));
        }
        pos = bytes.len() - r2;
    }
    Ok(())
}


/// One version of a collection in its version history.
#[derive(Debug, Clone, PartialEq, Eq)]
pub struct CollectionVersionInfo {
    pub version: i64,
    /// The encoded `CollectionSegmentInfo` message, if present.
    pub segment_info: Option<Vec<u8>>,
    /// The encoded `CollectionInfoMutable` message, if present.
    pub collection_info_mutable: Option<Vec<u8>>,
    pub created_at_secs: i64,
    /// The number of the `VersionChangeReason` enum value.
    pub version_change_reason: i32,
    pub version_file_name: String,
    pub marked_for_deletion: bool,
}

/// The abstract value of a `CollectionVersionInfo`.
pub struct VersionInfoView {
    pub version: i64,
    pub segment_info: Option<Seq<u8>>,
    pub collection_info_mutable: Option<Seq<u8>>,
    pub created_at_secs: i64,
    pub version_change_reason: i32,
    pub version_file_name: Seq<char>,
    pub marked_for_deletion: bool,
}

/// The bytes held by an optional byte vector.
pub open spec fn opt_bytes_view(o: Option<Vec<u8>>) -> Option<Seq<u8>> {
    match o {
        Some(v) => Some(v@),
        None => None,
    }
}

impl View for CollectionVersionInfo {
    type V = VersionInfoView;

    open spec fn view(&self) -> VersionInfoView {
        VersionInfoView {
            version: self.version,
            segment_info: opt_bytes_view(self.segment_info),
            collection_info_mutable: opt_bytes_view(self.collection_info_mutable),
            created_at_secs: self.created_at_secs,
            version_change_reason: self.version_change_reason,
            version_file_name: self.version_file_name@,
            marked_for_deletion: self.marked_for_deletion,
        }
    }
}

/// The `CollectionVersionInfo` with every field at its default.
pub open spec fn default_version() -> VersionInfoView {
    VersionInfoView {
        version: 0,
        segment_info: None,
        collection_info_mutable: None,
        created_at_secs: 0,
        version_change_reason: 0,
        version_file_name: Seq::empty(),
        marked_for_deletion: false,
    }
}

impl Default for CollectionVersionInfo {
    fn default() -> (r: Self)
        ensures
            r@ == default_version(),
    {
        CollectionVersionInfo {
            version: 0,
            segment_info: None,
            collection_info_mutable: None,
            created_at_secs: 0,
            version_change_reason: 0,
            version_file_name: String::new(),
            marked_for_deletion: false,
        }
    }
}

/// The encoding of an optional length-delimited field `tag`: nothing when it
/// is absent.
pub open spec fn opt_chunk_entry(tag: u32, c: Option<Seq<u8>>) -> Seq<u8> {
    match c {
        Some(b) => spec_chunk_entry(tag, b),
        None => Seq::empty(),
    }
}

/// The encoding of a `CollectionVersionInfo`.
pub open spec fn spec_encode_version(v: VersionInfoView) -> Seq<u8> {
    opt_varint_entry(1, i64_bits(v.version)) + (opt_chunk_entry(2, v.segment_info) + (
    opt_chunk_entry(3, v.collection_info_mutable) + (opt_varint_entry(4, i64_bits(v.created_at_secs))
        + (opt_varint_entry(5, i64_bits(v.version_change_reason as i64)) + (opt_string_entry(
        6,
        v.version_file_name,
    ) + opt_varint_entry(7, bool_bits(v.marked_for_deletion)))))))
}

/// The bytes of an optional nested message after a further occurrence `c` of
/// it: the two encodings joined.
pub open spec fn joined(prev: Option<Seq<u8>>, c: Seq<u8>) -> Seq<u8> {
    match prev {
        Some(p) => p + c,
        None => c,
    }
}

/// Whether the nested messages that a version keeps as bytes are well-formed
/// field sequences, as decoding requires of them.
pub open spec fn spec_nested_ok(v: VersionInfoView) -> bool {
    &&& (v.segment_info matches Some(b) ==> spec_fields_ok(b, 3))
    &&& (v.collection_info_mutable matches Some(b) ==> spec_fields_ok(b, 3))
}

/// Reads one field of a `CollectionVersionInfo`; see `spec_info_field`.
pub open spec fn spec_version_field(
    tag: u32,
    k: WireKind,
    s: Seq<u8>,
    acc: VersionInfoView,
) -> Option<(VersionInfoView, nat)> {
    if tag == 1 {
        match spec_varint_field(k, s) {
            Some((x, r)) => Some((VersionInfoView { version: u64_to_i64(x), ..acc }, r)),
            None => None,
        }
    } else if tag == 2 {
        match spec_chunk_field(k, s) {
            Some((c, r)) => {
                if spec_fields_ok(c, 3) {
                    Some(
                        (VersionInfoView { segment_info: Some(joined(acc.segment_info, c)), ..acc }, r),
                    )
                } else {
                    None
                }
            },
            None => None,
        }
    } else if tag == 3 {
        match spec_chunk_field(k, s) {
            Some((c, r)) => {
                if spec_fields_ok(c, 3) {
                    Some(
                        (
                            VersionInfoView {
                                collection_info_mutable: Some(joined(acc.collection_info_mutable, c)),
                                ..acc
                            },
                            r,
                        ),
                    )
                } else {
                    None
                }
            },
            None => None,
        }
    } else if tag == 4 {
        match spec_varint_field(k, s) {
            Some((x, r)) => Some((VersionInfoView { created_at_secs: u64_to_i64(x), ..acc }, r)),
            None => None,
        }
    } else if tag == 5 {
        match spec_varint_field(k, s) {
            Some((x, r)) => Some(
                (VersionInfoView { version_change_reason: u64_to_i32(x), ..acc }, r),
            ),
            None => None,
        }
    } else if tag == 6 {
        match spec_string_field(k, s) {
            Some((t, r)) => Some((VersionInfoView { version_file_name: t, ..acc }, r)),
            None => None,
        }
    } else if tag == 7 {
        match spec_varint_field(k, s) {
            Some((x, r)) => Some((VersionInfoView { marked_for_deletion: x != 0, ..acc }, r)),
            None => None,
        }
    } else {
        match spec_skip_at(2, k, tag, s) {
            Some(r) => Some((acc, r)),
            None => None,
        }
    }
}

/// Reads the fields of a `CollectionVersionInfo` from `s` into `acc`.
pub open spec fn spec_merge_version(s: Seq<u8>, acc: VersionInfoView) -> Option<VersionInfoView>
    decreases s.len(),
{
    if s.len() == 0 {
        Some(acc)
    } else {
        match spec_parse_key(s) {
            None => None,
            Some((tag, k, n)) => match spec_version_field(tag, k, s.skip(n as int), acc) {
                None => None,
                Some((acc2, r)) => {
                    if r < s.len() {
                        spec_merge_version(s.skip(s.len() - r), acc2)
                    } else {
                        None
                    }
                },
            },
        }
    }
}

/// Appends length-delimited field `tag` holding `c`, unless it is absent.
fn put_opt_bytes(tag: u32, c: &Option<Vec<u8>>, buf: &mut Vec<u8>)
    requires
        1 <= tag <= crate::wire::MAX_TAG,
    ensures
        final(buf)@ == old(buf)@ + opt_chunk_entry(tag, opt_bytes_view(*c)),
{
    match c {
        Some(b) => put_bytes(tag, b, buf),
        None => {
            assert(buf@ =~= buf@ + opt_chunk_entry(tag, opt_bytes_view(*c)));
        },
    }
}

/// Regrouping of seven appended pieces.
proof fn lemma_join7(
    s: Seq<u8>,
    a: Seq<u8>,
    b: Seq<u8>,
    c: Seq<u8>,
    d: Seq<u8>,
    e: Seq<u8>,
    f: Seq<u8>,
    g: Seq<u8>,
)
    ensures
        s + a + b + c + d + e + f + g == s + (a + (b + (c + (d + (e + (f + g)))))),
{
    assert(s + a + b + c + d + e + f + g =~= s + (a + (b + (c + (d + (e + (f + g)))))));
}

/// Appends the encoding of `v` to `buf`.
pub fn encode_version(v: &CollectionVersionInfo, buf: &mut Vec<u8>)
    ensures
        final(buf)@ == old(buf)@ + spec_encode_version(v@),
{
    let ghost start = buf@;
    put_opt_int64(1, v.version, buf);
    put_opt_bytes(2, &v.segment_info, buf);
    put_opt_bytes(3, &v.collection_info_mutable, buf);
    put_opt_int64(4, v.created_at_secs, buf);
    put_opt_int32(5, v.version_change_reason, buf);
    put_opt_string(6, &v.version_file_name, buf);
    put_opt_bool(7, v.marked_for_deletion, buf);
    proof {
        lemma_join7(
            start,
            opt_varint_entry(1, i64_bits(v.version)),
            opt_chunk_entry(2, opt_bytes_view(v.segment_info)),
            opt_chunk_entry(3, opt_bytes_view(v.collection_info_mutable)),
            opt_varint_entry(4, i64_bits(v.created_at_secs)),
            opt_varint_entry(5, i64_bits(v.version_change_reason as i64)),
            opt_string_entry(6, v.version_file_name@),
            opt_varint_entry(7, bool_bits(v.marked_for_deletion)),
        );
    }
}

/// Joins a further occurrence `chunk` of a nested message to the bytes held
/// in `slot`.
fn join_chunk(slot: &mut Option<Vec<u8>>, chunk: Vec<u8>)
    ensures
        opt_bytes_view(*final(slot)) == Some(joined(opt_bytes_view(*old(slot)), chunk@)),
{
    let mut chunk = chunk;
    let mut all = match slot.take() {
        Some(p) => p,
        None => Vec::new(),
    };
    proof {
        if opt_bytes_view(*old(slot)) is None {
            assert(all@ + chunk@ =~= chunk@);
        }
    }
    all.append(&mut chunk);
    *slot = Some(all);
}

/// Reads the fields of a `CollectionVersionInfo` from `bytes` into `acc`.
pub fn merge_version(bytes: &[u8], acc: &mut CollectionVersionInfo) -> (res: Result<
    (),
    DecodeError,
>)
    ensures
        match spec_merge_version(bytes@, old(acc)@) {
            Some(v) => res is Ok && final(acc)@ == v,
            None => res is Err,
        },
{
    let mut pos: usize = 0;
    assert(bytes@.skip(0) =~= bytes@);
    while pos < bytes.len()
        invariant
            pos <= bytes.len(),
            spec_merge_version(bytes@, old(acc)@) == spec_merge_version(
                bytes@.skip(pos as int),
                acc@,
            ),
        decreases bytes.len() - pos,
    {
        let rest = slice_subrange(bytes, pos, bytes.len());
        let ghost s = rest@;
        let ghost before = acc@;
        assert(s =~= bytes@.skip(pos as int));
        let (tag, kind, r1) = take_key(rest)?;
        proof {
            lemma_parse_key_consumes(s);
            lemma_parse_key_tag(s);
        }
        let body = slice_subrange(rest, rest.len() - r1, rest.len());
        assert(body@ =~= s.skip(s.len() - r1));
        let r2 = if tag == 1 {
            take_int64(kind, &mut acc.version, body)?
        } else if tag == 2 {
            let mut chunk: Vec<u8> = Vec::new();
            let r = take_bytes(kind, &mut chunk, body)?;
            check_fields(chunk.as_slice(), 3)?;
            join_chunk(&mut acc.segment_info, chunk);
            r
        } else if tag == 3 {
            let mut chunk: Vec<u8> = Vec::new();
            let r = take_bytes(kind, &mut chunk, body)?;
            check_fields(chunk.as_slice(), 3)?;
            join_chunk(&mut acc.collection_info_mutable, chunk);
            r
        } else if tag == 4 {
            take_int64(kind, &mut acc.created_at_secs, body)?
        } else if tag == 5 {
            take_int32(kind, &mut acc.version_change_reason, body)?
        } else if tag == 6 {
            take_string(kind, &mut acc.version_file_name, body)?
        } else if tag == 7 {
            take_bool(kind, &mut acc.marked_for_deletion, body)?
        } else {
            skip_field_at(2, kind, tag, body)?
        };
        proof {
            lemma_parse_varint_consumes(body@);
            lemma_length_delimited_consumes(body@);
            assert(spec_version_field(tag, kind, body@, before) == Some((acc@, r2 as nat)));
            assert(bytes@.skip(bytes.len() - r2) =~= s.skip(s.len() - r2));
        }
        pos = bytes.len() - r2;
    }
    Ok(())
}

/// The versions of a collection, oldest first.
#[derive(Debug, Clone, PartialEq, Eq)]
pub struct CollectionVersionHistory {
    pub versions: Vec<CollectionVersionInfo>,
}

/// The abstract value of a `CollectionVersionHistory`.
pub struct HistoryView {
    pub versions: Seq<VersionInfoView>,
}

impl View for CollectionVersionHistory {
    type V = HistoryView;

    open spec fn view(&self) -> HistoryView {
        HistoryView { versions: self.versions@.map_values(|x: CollectionVersionInfo| x@) }
    }
}

/// The empty version history.
pub open spec fn default_history() -> HistoryView {
    HistoryView { versions: Seq::empty() }
}

impl Default for CollectionVersionHistory {
    fn default() -> (r: Self)
        ensures
            r@ == default_history(),
    {
        let r = CollectionVersionHistory { versions: Vec::new() };
        assert(r@.versions =~= Seq::<VersionInfoView>::empty());
        r
    }
}

/// The encoding of a sequence of versions as occurrences of field 1, in
/// order.
pub open spec fn spec_encode_versions(vs: Seq<VersionInfoView>) -> Seq<u8>
    decreases vs.len(),
{
    if vs.len() == 0 {
        Seq::empty()
    } else {
        spec_encode_versions(vs.drop_last()) + spec_chunk_entry(1, spec_encode_version(vs.last()))
    }
}

/// The encoding of a `CollectionVersionHistory`.
pub open spec fn spec_encode_history(h: HistoryView) -> Seq<u8> {
    spec_encode_versions(h.versions)
}

/// Reads one field of a `CollectionVersionHistory`; see `spec_info_field`.
/// Each occurrence of field 1 adds one version.
pub open spec fn spec_history_field(tag: u32, k: WireKind, s: Seq<u8>, acc: HistoryView) -> Option<
    (HistoryView, nat),
> {
    if tag == 1 {
        match spec_chunk_field(k, s) {
            Some((c, r)) => match spec_merge_version(c, default_version()) {
                Some(v) => Some((HistoryView { versions: acc.versions.push(v) }, r)),
                None => None,
            },
            None => None,
        }
    } else {
        match spec_skip_at(1, k, tag, s) {
            Some(r) => Some((acc, r)),
            None => None,
        }
    }
}

/// Reads the fields of a `CollectionVersionHistory` from `s` into `acc`.
pub open spec fn spec_merge_history(s: Seq<u8>, acc: HistoryView) -> Option<HistoryView>
    decreases s.len(),
{
    if s.len() == 0 {
        Some(acc)
    } else {
        match spec_parse_key(s) {
            None => None,
            Some((tag, k, n)) => match spec_history_field(tag, k, s.skip(n as int), acc) {
                None => None,
                Some((acc2, r)) => {
                    if r < s.len() {
                        spec_merge_history(s.skip(s.len() - r), acc2)
                    } else {
                        None
                    }
                },
            },
        }
    }
}

/// Appends the encoding of `h` to `buf`.
pub fn encode_history(h: &CollectionVersionHistory, buf: &mut Vec<u8>)
    ensures
        final(buf)@ == old(buf)@ + spec_encode_history(h@),
{
    let ghost start = buf@;
    let ghost vs = h@.versions;
    let mut i: usize = 0;
    assert(vs.take(0) =~= Seq::<VersionInfoView>::empty());
    assert(buf@ =~= start + spec_encode_versions(vs.take(0)));
    while i < h.versions.len()
        invariant
            i <= h.versions.len(),
            vs == h@.versions,
            vs.len() == h.versions.len(),
            buf@ == start + spec_encode_versions(vs.take(i as int)),
        decreases h.versions.len() - i,
    {
        let mut body: Vec<u8> = Vec::new();
        encode_version(&h.versions[i], &mut body);
        assert(body@ =~= spec_encode_version(vs[i as int]));
        put_bytes(1, &body, buf);
        proof {
            let t = vs.take(i + 1);
            assert(t.drop_last() =~= vs.take(i as int));
            assert(t.last() == vs[i as int]);
            assert(buf@ =~= start + spec_encode_versions(t));
        }
        i = i + 1;
    }
    assert(vs.take(i as int) =~= vs);
}

/// Reads the fields of a `CollectionVersionHistory` from `bytes` into `acc`.
pub fn merge_history(bytes: &[u8], acc: &mut CollectionVersionHistory) -> (res: Result<
    (),
    DecodeError,
>)
    ensures
        match spec_merge_history(bytes@, old(acc)@) {
            Some(v) => res is Ok && final(acc)@ == v,
            None => res is Err,
        },
{
    let mut pos: usize = 0;
    assert(bytes@.skip(0) =~= bytes@);
    while pos < bytes.len()
        invariant
            pos <= bytes.len(),
            spec_merge_history(bytes@, old(acc)@) == spec_merge_history(
                bytes@.skip(pos as int),
                acc@,
            ),
        decreases bytes.len() - pos,
    {
        let rest = slice_subrange(bytes, pos, bytes.len());
        let ghost s = rest@;
        let ghost before = acc@;
        assert(s =~= bytes@.skip(pos as int));
        let (tag, kind, r1) = take_key(rest)?;
        proof {
            lemma_parse_key_consumes(s);
            lemma_parse_key_tag(s);
        }
        let body = slice_subrange(rest, rest.len() - r1, rest.len());
        assert(body@ =~= s.skip(s.len() - r1));
        let r2 = if tag == 1 {
            let mut chunk: Vec<u8> = Vec::new();
            let r = take_bytes(kind, &mut chunk, body)?;
            let mut v = CollectionVersionInfo::default();
            merge_version(chunk.as_slice(), &mut v)?;
            acc.versions.push(v);
            assert(acc@.versions =~= before.versions.push(v@));
            r
        } else {
            skip_field_at(1, kind, tag, body)?
        };
        proof {
            lemma_length_delimited_consumes(body@);
            assert(spec_history_field(tag, kind, body@, before) == Some((acc@, r2 as nat)));
            assert(bytes@.skip(bytes.len() - r2) =~= s.skip(s.len() - r2));
        }
        pos = bytes.len() - r2;
    }
    Ok(())
}

/// A collection version file: the collection's immutable facts and its
/// version history.
#[derive(Debug, Clone, PartialEq, Eq)]
pub struct CollectionVersionFile {
    pub collection_info_immutable: Option<CollectionInfoImmutable>,
    pub version_history: Option<CollectionVersionHistory>,
}

/// The abstract value of a `CollectionVersionFile`.
pub struct VersionFileView {
    pub collection_info_immutable: Option<InfoView>,
    pub version_history: Option<HistoryView>,
}

impl View for CollectionVersionFile {
    type V = VersionFileView;

    open spec fn view(&self) -> VersionFileView {
        VersionFileView {
            collection_info_immutable: match self.collection_info_immutable {
                Some(i) => Some(i@),
                None => None,
            },
            version_history: match self.version_history {
                Some(h) => Some(h@),
                None => None,
            },
        }
    }
}

/// The version file with both fields absent.
pub open spec fn default_file() -> VersionFileView {
    VersionFileView { collection_info_immutable: None, version_history: None }
}

impl Default for CollectionVersionFile {
    fn default() -> (r: Self)
        ensures
            r@ == default_file(),
    {
        CollectionVersionFile { collection_info_immutable: None, version_history: None }
    }
}

/// Whether every version of a version file keeps well-formed nested
/// messages.
pub open spec fn spec_file_nested_ok(f: VersionFileView) -> bool {
    f.version_history matches Some(h) ==> forall|i: int|
        0 <= i < h.versions.len() ==> spec_nested_ok(#[trigger] h.versions[i])
}

/// Whether the nested messages that the versions of `f` keep as bytes are
/// well-formed field sequences, so that the encoding of `f` decodes again.
pub fn nested_messages_ok(f: &CollectionVersionFile) -> (ok: bool)
    ensures
        ok == spec_file_nested_ok(f@),
{
    let h = match &f.version_history {
        None => {
            return true;
        },
        Some(h) => h,
    };
    let ghost vs = h@.versions;
    let mut i: usize = 0;
    while i < h.versions.len()
        invariant
            i <= h.versions.len(),
            vs == h@.versions,
            vs.len() == h.versions.len(),
            f@.version_history == Some(h@),
            forall|j: int| 0 <= j < i ==> spec_nested_ok(#[trigger] vs[j]),
        decreases h.versions.len() - i,
    {
        let v = &h.versions[i];
        assert(vs[i as int] == v@);
        match &v.segment_info {
            Some(b) => {
                if check_fields(b.as_slice(), 3).is_err() {
                    assert(!spec_nested_ok(vs[i as int]));
                    assert(!spec_file_nested_ok(f@)) by {
                        let hv = f@.version_history.unwrap();
                        assert(hv.versions[i as int] == vs[i as int]);
                        assert(!spec_nested_ok(hv.versions[i as int]));
                    }
                    return false;
                }
            },
            None => {},
        }
        match &v.collection_info_mutable {
            Some(b) => {
                if check_fields(b.as_slice(), 3).is_err() {
                    assert(!spec_nested_ok(vs[i as int]));
                    assert(!spec_file_nested_ok(f@)) by {
                        let hv = f@.version_history.unwrap();
                        assert(hv.versions[i as int] == vs[i as int]);
                        assert(!spec_nested_ok(hv.versions[i as int]));
                    }
                    return false;
                }
            },
            None => {},
        }
        i = i + 1;
    }
    true
}

/// The encoding of a `CollectionVersionFile`: each present field as a nested
/// message.
pub open spec fn spec_encode_file(f: VersionFileView) -> Seq<u8> {
    (match f.collection_info_immutable {
        Some(i) => spec_chunk_entry(1, spec_encode_info(i)),
        None => Seq::empty(),
    }) + (match f.version_history {
        Some(h) => spec_chunk_entry(2, spec_encode_history(h)),
        None => Seq::empty(),
    })
}

/// Reads one field of a `CollectionVersionFile`; see `spec_info_field`. A
/// nested message merges into what earlier occurrences gave.
pub open spec fn spec_file_field(tag: u32, k: WireKind, s: Seq<u8>, acc: VersionFileView) -> Option<
    (VersionFileView, nat),
> {
    if tag == 1 {
        match spec_chunk_field(k, s) {
            Some((c, r)) => {
                let base = match acc.collection_info_immutable {
                    Some(i) => i,
                    None => default_info(),
                };
                match spec_merge_info(c, base) {
                    Some(i) => Some(
                        (VersionFileView { collection_info_immutable: Some(i), ..acc }, r),
                    ),
                    None => None,
                }
            },
            None => None,
        }
    } else if tag == 2 {
        match spec_chunk_field(k, s) {
            Some((c, r)) => {
                let base = match acc.version_history {
                    Some(h) => h,
                    None => default_history(),
                };
                match spec_merge_history(c, base) {
                    Some(h) => Some((VersionFileView { version_history: Some(h), ..acc }, r)),
                    None => None,
                }
            },
            None => None,
        }
    } else {
        match spec_skip_at(0, k, tag, s) {
            Some(r) => Some((acc, r)),
            None => None,
        }
    }
}

/// Reads the fields of a `CollectionVersionFile` from `s` into `acc`.
pub open spec fn spec_merge_file(s: Seq<u8>, acc: VersionFileView) -> Option<VersionFileView>
    decreases s.len(),
{
    if s.len() == 0 {
        Some(acc)
    } else {
        match spec_parse_key(s) {
            None => None,
            Some((tag, k, n)) => match spec_file_field(tag, k, s.skip(n as int), acc) {
                None => None,
                Some((acc2, r)) => {
                    if r < s.len() {
                        spec_merge_file(s.skip(s.len() - r), acc2)
                    } else {
                        None
                    }
                },
            },
        }
    }
}

/// The version file that `s` decodes to, or `None` where it is not a valid
/// encoding of one.
pub open spec fn spec_decode_file(s: Seq<u8>) -> Option<VersionFileView> {
    spec_merge_file(s, default_file())
}

/// Encodes `f` as a protobuf message.
pub fn encode_version_file(f: &CollectionVersionFile) -> (res: Vec<u8>)
    ensures
        res@ == spec_encode_file(f@),
{
    let mut buf: Vec<u8> = Vec::new();
    match &f.collection_info_immutable {
        Some(i) => {
            let mut body: Vec<u8> = Vec::new();
            encode_info(i, &mut body);
            assert(body@ =~= spec_encode_info(i@));
            put_bytes(1, &body, &mut buf);
        },
        None => {},
    }
    let ghost first = buf@;
    match &f.version_history {
        Some(h) => {
            let mut body: Vec<u8> = Vec::new();
            encode_history(h, &mut body);
            assert(body@ =~= spec_encode_history(h@));
            put_bytes(2, &body, &mut buf);
        },
        None => {},
    }
    assert(buf@ =~= spec_encode_file(f@));
    buf
}

/// Reads the fields of a `CollectionVersionFile` from `bytes` into `acc`.
fn merge_file(bytes: &[u8], acc: &mut CollectionVersionFile) -> (res: Result<(), DecodeError>)
    ensures
        match spec_merge_file(bytes@, old(acc)@) {
            Some(v) => res is Ok && final(acc)@ == v,
            None => res is Err,
        },
{
    let mut pos: usize = 0;
    assert(bytes@.skip(0) =~= bytes@);
    while pos < bytes.len()
        invariant
            pos <= bytes.len(),
            spec_merge_file(bytes@, old(acc)@) == spec_merge_file(bytes@.skip(pos as int), acc@),
        decreases bytes.len() - pos,
    {
        let rest = slice_subrange(bytes, pos, bytes.len());
        let ghost s = rest@;
        let ghost before = acc@;
        assert(s =~= bytes@.skip(pos as int));
        let (tag, kind, r1) = take_key(rest)?;
        proof {
            lemma_parse_key_consumes(s);
            lemma_parse_key_tag(s);
        }
        let body = slice_subrange(rest, rest.len() - r1, rest.len());
        assert(body@ =~= s.skip(s.len() - r1));
        let r2 = if tag == 1 {
            let mut chunk: Vec<u8> = Vec::new();
            let r = take_bytes(kind, &mut chunk, body)?;
            let mut info = match acc.collection_info_immutable.take() {
                Some(i) => i,
                None => CollectionInfoImmutable::default(),
            };
            merge_info(chunk.as_slice(), &mut info)?;
            acc.collection_info_immutable = Some(info);
            r
        } else if tag == 2 {
            let mut chunk: Vec<u8> = Vec::new();
            let r = take_bytes(kind, &mut chunk, body)?;
            let mut history = match acc.version_history.take() {
                Some(h) => h,
                None => CollectionVersionHistory::default(),
            };
            merge_history(chunk.as_slice(), &mut history)?;
            acc.version_history = Some(history);
            r
        } else {
            skip_field_at(0, kind, tag, body)?
        };
        proof {
            lemma_length_delimited_consumes(body@);
            assert(spec_file_field(tag, kind, body@, before) == Some((acc@, r2 as nat)));
            assert(bytes@.skip(bytes.len() - r2) =~= s.skip(s.len() - r2));
        }
        pos = bytes.len() - r2;
    }
    Ok(())
}

/// Decodes a protobuf `CollectionVersionFile` from `bytes`: fields not known
/// here are skipped, and the input must be used up exactly.
pub fn decode_version_file(bytes: &[u8]) -> (res: Result<CollectionVersionFile, DecodeError>)
    ensures
        match spec_decode_file(bytes@) {
            Some(v) => res matches Ok(f) && f@ == v,
            None => res is Err,
        },
{
    let mut f = CollectionVersionFile::default();
    merge_file(bytes, &mut f)?;
    Ok(f)
}

} // verus!
