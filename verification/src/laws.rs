//! What the operations of this crate are for, stated over their inputs and
//! results: which field number carries which field of a message, what
//! validation accepts and with which message it refuses, and what a version
//! file's path is made of.
use crate::collection_uuid::spec_uuid_text;
use crate::nesting::spec_fields_ok;
use crate::proto::{
    spec_decode_file, spec_encode_info, spec_encode_version, spec_merge_info, spec_merge_version,
    CollectionVersionFile, InfoView, VersionFileView, VersionInfoView,
};
use crate::roundtrip::{lemma_chunk_entry_parts, lemma_string_entry_parts, lemma_varint_entry_parts};
use crate::version_file::{
    read_outcome, spec_is_valid, spec_suffix, spec_version_file_path, validation_outcome,
    VersionFileError, VersionFileType,
};
use crate::wire::{
    bool_bits, i64_bits, spec_chunk_entry, spec_string_entry, spec_varint_entry, u64_to_i32,
    u64_to_i64,
};
use vstd::prelude::*;
use vstd::utf8::encode_utf8;

verus! {

/// A string field of `CollectionInfoImmutable`, read from the wire, sets the
/// field that its number names in the schema: 1 the tenant id, 2 the database
/// id, 3 the database name, 6 the collection id, 7 the collection name;
/// whatever follows is read as before.
#[verifier::rlimit(40)]
pub proof fn law_info_string_fields(t: Seq<char>, rest: Seq<u8>, acc: InfoView)
    requires
        encode_utf8(t).len() <= u64::MAX,
    ensures
        spec_merge_info(spec_string_entry(1, t) + rest, acc) == spec_merge_info(
            rest,
            InfoView { tenant_id: t, ..acc },
        ),
        spec_merge_info(spec_string_entry(2, t) + rest, acc) == spec_merge_info(
            rest,
            InfoView { database_id: t, ..acc },
        ),
        spec_merge_info(spec_string_entry(3, t) + rest, acc) == spec_merge_info(
            rest,
            InfoView { database_name: t, ..acc },
        ),
        spec_merge_info(spec_string_entry(6, t) + rest, acc) == spec_merge_info(
            rest,
            InfoView { collection_id: t, ..acc },
        ),
        spec_merge_info(spec_string_entry(7, t) + rest, acc) == spec_merge_info(
            rest,
            InfoView { collection_name: t, ..acc },
        ),
{
    lemma_string_entry_parts(1, t, rest);
    lemma_string_entry_parts(2, t, rest);
    lemma_string_entry_parts(3, t, rest);
    lemma_string_entry_parts(6, t, rest);
    lemma_string_entry_parts(7, t, rest);
}

/// A varint field of `CollectionInfoImmutable` sets the field that its number
/// names: 4 whether the collection is deleted, 5 its dimension (the low 32
/// bits), 8 its creation time.
#[verifier::rlimit(40)]
pub proof fn law_info_varint_fields(x: u64, rest: Seq<u8>, acc: InfoView)
    ensures
        spec_merge_info(spec_varint_entry(4, x) + rest, acc) == spec_merge_info(
            rest,
            InfoView { is_deleted: x != 0, ..acc },
        ),
        spec_merge_info(spec_varint_entry(5, x) + rest, acc) == spec_merge_info(
            rest,
            InfoView { dimension: u64_to_i32(x), ..acc },
        ),
        spec_merge_info(spec_varint_entry(8, x) + rest, acc) == spec_merge_info(
            rest,
            InfoView { collection_creation_secs: u64_to_i64(x), ..acc },
        ),
{
    lemma_varint_entry_parts(4, x, rest);
    lemma_varint_entry_parts(5, x, rest);
    lemma_varint_entry_parts(8, x, rest);
}

/// A `CollectionInfoImmutable` is written field by field under the schema's
/// numbers, each field left out where it holds its default.
pub proof fn law_info_encoding(v: InfoView)
    ensures
        spec_encode_info(v) == (if v.tenant_id.len() == 0 {
            Seq::empty()
        } else {
            spec_string_entry(1, v.tenant_id)
        }) + ((if v.database_id.len() == 0 {
            Seq::empty()
        } else {
            spec_string_entry(2, v.database_id)
        }) + ((if v.database_name.len() == 0 {
            Seq::empty()
        } else {
            spec_string_entry(3, v.database_name)
        }) + ((if !v.is_deleted {
            Seq::empty()
        } else {
            spec_varint_entry(4, 1)
        }) + ((if v.dimension == 0 {
            Seq::empty()
        } else {
            spec_varint_entry(5, i64_bits(v.dimension as i64))
        }) + ((if v.collection_id.len() == 0 {
            Seq::empty()
        } else {
            spec_string_entry(6, v.collection_id)
        }) + ((if v.collection_name.len() == 0 {
            Seq::empty()
        } else {
            spec_string_entry(7, v.collection_name)
        }) + (if v.collection_creation_secs == 0 {
            Seq::empty()
        } else {
            spec_varint_entry(8, i64_bits(v.collection_creation_secs))
        }))))))),
{
    assert(i64_bits(v.dimension as i64) == 0 <==> v.dimension == 0);
    assert(i64_bits(v.collection_creation_secs) == 0 <==> v.collection_creation_secs == 0);
    assert(bool_bits(v.is_deleted) == 0 <==> !v.is_deleted);
}

/// A varint field of `CollectionVersionInfo` sets the field that its number
/// names in the schema: 1 the version, 4 the creation time, 5 the change
/// reason (the low 32 bits), 7 whether the version is marked for deletion.
#[verifier::rlimit(40)]
pub proof fn law_version_varint_fields(x: u64, rest: Seq<u8>, acc: VersionInfoView)
    ensures
        spec_merge_version(spec_varint_entry(1, x) + rest, acc) == spec_merge_version(
            rest,
            VersionInfoView { version: u64_to_i64(x), ..acc },
        ),
        spec_merge_version(spec_varint_entry(4, x) + rest, acc) == spec_merge_version(
            rest,
            VersionInfoView { created_at_secs: u64_to_i64(x), ..acc },
        ),
        spec_merge_version(spec_varint_entry(5, x) + rest, acc) == spec_merge_version(
            rest,
            VersionInfoView { version_change_reason: u64_to_i32(x), ..acc },
        ),
        spec_merge_version(spec_varint_entry(7, x) + rest, acc) == spec_merge_version(
            rest,
            VersionInfoView { marked_for_deletion: x != 0, ..acc },
        ),
{
    lemma_varint_entry_parts(1, x, rest);
    lemma_varint_entry_parts(4, x, rest);
    lemma_varint_entry_parts(5, x, rest);
    lemma_varint_entry_parts(7, x, rest);
}

/// A field 6 string of `CollectionVersionInfo` sets the version file name.
pub proof fn law_version_file_name_field(t: Seq<char>, rest: Seq<u8>, acc: VersionInfoView)
    requires
        encode_utf8(t).len() <= u64::MAX,
    ensures
        spec_merge_version(spec_string_entry(6, t) + rest, acc) == spec_merge_version(
            rest,
            VersionInfoView { version_file_name: t, ..acc },
        ),
{
    lemma_string_entry_parts(6, t, rest);
}

/// Fields 2 and 3 of `CollectionVersionInfo`, the segment info and the
/// mutable collection info, join their bytes to what earlier occurrences
/// gave, where those bytes are a well-formed field sequence, and fail the
/// decoding otherwise.
#[verifier::rlimit(40)]
pub proof fn law_version_nested_fields(c: Seq<u8>, rest: Seq<u8>, acc: VersionInfoView)
    requires
        c.len() <= u64::MAX,
    ensures
        spec_fields_ok(c, 3) ==> spec_merge_version(spec_chunk_entry(2, c) + rest, acc)
            == spec_merge_version(
            rest,
            VersionInfoView {
                segment_info: Some(
                    match acc.segment_info {
                        Some(p) => p + c,
                        None => c,
                    },
                ),
                ..acc
            },
        ),
        spec_fields_ok(c, 3) ==> spec_merge_version(spec_chunk_entry(3, c) + rest, acc)
            == spec_merge_version(
            rest,
            VersionInfoView {
                collection_info_mutable: Some(
                    match acc.collection_info_mutable {
                        Some(p) => p + c,
                        None => c,
                    },
                ),
                ..acc
            },
        ),
        !spec_fields_ok(c, 3) ==> spec_merge_version(spec_chunk_entry(2, c) + rest, acc) is None,
        !spec_fields_ok(c, 3) ==> spec_merge_version(spec_chunk_entry(3, c) + rest, acc) is None,
{
    lemma_chunk_entry_parts(2, c, rest);
    lemma_chunk_entry_parts(3, c, rest);
}

/// A `CollectionVersionInfo` is written field by field under the schema's
/// numbers, each field left out where it holds its default.
pub proof fn law_version_encoding(v: VersionInfoView)
    ensures
        spec_encode_version(v) == (if v.version == 0 {
            Seq::empty()
        } else {
            spec_varint_entry(1, i64_bits(v.version))
        }) + ((match v.segment_info {
            Some(b) => spec_chunk_entry(2, b),
            None => Seq::empty(),
        }) + ((match v.collection_info_mutable {
            Some(b) => spec_chunk_entry(3, b),
            None => Seq::empty(),
        }) + ((if v.created_at_secs == 0 {
            Seq::empty()
        } else {
            spec_varint_entry(4, i64_bits(v.created_at_secs))
        }) + ((if v.version_change_reason == 0 {
            Seq::empty()
        } else {
            spec_varint_entry(5, i64_bits(v.version_change_reason as i64))
        }) + ((if v.version_file_name.len() == 0 {
            Seq::empty()
        } else {
            spec_string_entry(6, v.version_file_name)
        }) + (if !v.marked_for_deletion {
            Seq::empty()
        } else {
            spec_varint_entry(7, 1)
        })))))),
{
    assert(i64_bits(v.version) == 0 <==> v.version == 0);
    assert(i64_bits(v.created_at_secs) == 0 <==> v.created_at_secs == 0);
    assert(i64_bits(v.version_change_reason as i64) == 0 <==> v.version_change_reason == 0);
    assert(bool_bits(v.marked_for_deletion) == 0 <==> !v.marked_for_deletion);
}

/// Whether a version file meets the five documented conditions: collection
/// info with non-empty collection id, tenant id, database id and collection
/// name, and a version history.
pub open spec fn meets_requirements(f: VersionFileView) -> bool {
    &&& f.collection_info_immutable is Some
    &&& f.collection_info_immutable.unwrap().collection_id.len() != 0
    &&& f.collection_info_immutable.unwrap().tenant_id.len() != 0
    &&& f.collection_info_immutable.unwrap().database_id.len() != 0
    &&& f.collection_info_immutable.unwrap().collection_name.len() != 0
    &&& f.version_history is Some
}

/// Validation accepts exactly the files that meet the five conditions, and
/// nothing else about a file (its versions among them) matters. Each
/// condition is checked on its own, in order: the first that fails gives its
/// own error.
pub proof fn law_validation(f: VersionFileView, res: Result<(), VersionFileError>)
    requires
        validation_outcome(f, res),
    ensures
        res is Ok <==> meets_requirements(f),
        spec_is_valid(f) <==> meets_requirements(f),
        f.collection_info_immutable is None ==> res matches Err(
            VersionFileError::MissingCollectionInfo,
        ),
        f.collection_info_immutable matches Some(i) ==> {
            &&& i.collection_id.len() == 0 ==> (res matches Err(
                VersionFileError::ValidationFailed(m),
            ) && m@ == "Collection ID cannot be empty"@)
            &&& (i.collection_id.len() != 0 && i.tenant_id.len() == 0) ==> (res matches Err(
                VersionFileError::ValidationFailed(m),
            ) && m@ == "Tenant ID cannot be empty"@)
            &&& (i.collection_id.len() != 0 && i.tenant_id.len() != 0 && i.database_id.len() == 0)
                ==> (res matches Err(VersionFileError::ValidationFailed(m)) && m@
                == "Database ID cannot be empty"@)
            &&& (i.collection_id.len() != 0 && i.tenant_id.len() != 0 && i.database_id.len() != 0
                && f.version_history is None) ==> (res matches Err(
                VersionFileError::ValidationFailed(m),
            ) && m@ == "Version history cannot be empty"@)
            &&& (i.collection_id.len() != 0 && i.tenant_id.len() != 0 && i.database_id.len() != 0
                && f.version_history is Some && i.collection_name.len() == 0) ==> (res matches Err(
                VersionFileError::ValidationFailed(m),
            ) && m@ == "Collection name cannot be empty"@)
        },
{
}

/// Fetching gives back the stored file exactly when its bytes decode and the
/// decoded file meets the five conditions; bytes that do not decode give a
/// decoding error.
pub proof fn law_fetch(content: Seq<u8>, res: Result<CollectionVersionFile, VersionFileError>)
    requires
        read_outcome(content, res),
    ensures
        spec_decode_file(content) is None ==> res matches Err(VersionFileError::Decode(_)),
        spec_decode_file(content) matches Some(v) ==> (res is Ok <==> meets_requirements(v)),
        res matches Ok(g) ==> spec_decode_file(content) == Some(g@),
{
}

/// The path of a version file is `tenant/`, the tenant id, `/database/`, the
/// database id, `/collection/`, the collection id's canonical text,
/// `/versionfiles/`, the version id, `_` and the suffix, each piece verbatim.
pub proof fn law_version_file_path(
    tenant: Seq<char>,
    database: Seq<char>,
    collection_id: u128,
    version_id: Seq<char>,
    file_type: VersionFileType,
)
    ensures
        ({
            let p = spec_version_file_path(tenant, database, collection_id, version_id, file_type);
            &&& p == "tenant/"@ + tenant + "/database/"@ + database + "/collection/"@
                + spec_uuid_text(collection_id) + "/versionfiles/"@ + version_id + "_"@
                + spec_suffix(file_type)
            &&& p.subrange(7, 7 + tenant.len() as int) == tenant
            &&& p.subrange(p.len() - spec_suffix(file_type).len(), p.len() as int) == spec_suffix(
                file_type,
            )
        }),
{
    reveal_strlit("tenant/");
    let p = spec_version_file_path(tenant, database, collection_id, version_id, file_type);
    let q = "tenant/"@ + tenant;
    let s = spec_suffix(file_type);
    let front = "tenant/"@ + tenant + "/database/"@ + database + "/collection/"@ + spec_uuid_text(
        collection_id,
    ) + "/versionfiles/"@ + version_id + "_"@;
    assert(p == front + s);
    assert(p.subrange(7, 7 + tenant.len() as int) =~= tenant) by {
        assert forall|i: int| 0 <= i < tenant.len() implies p[7 + i] == tenant[i] by {
            assert(p[7 + i] == q[7 + i]);
        }
    }
    assert(p.subrange(p.len() - s.len(), p.len() as int) =~= s);
}

} // verus!
