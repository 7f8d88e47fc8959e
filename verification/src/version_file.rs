//! Version files of collections: where they are stored, how they are
//! checked, and what is read back from storage and written to it.
use crate::collection_uuid::{spec_parse_uuid, spec_uuid_text, CollectionUuid};
use crate::proto::{
    decode_version_file, encode_version_file, spec_decode_file, spec_encode_file,
    CollectionVersionFile, VersionFileView,
};
use prost::DecodeError;
use vstd::prelude::*;

verus! {

/// Kind of operation that produced a version file; it decides the file's
/// name suffix.
#[derive(Debug, Clone, Copy, PartialEq, Eq, Structural)]
pub enum VersionFileType {
    /// Written by compaction; the file name ends with `_flush`.
    Compaction,
    /// Written by garbage collection; the file name ends with `_gc_mark`.
    GarbageCollection,
}

/// The suffix of a version file written by an operation of kind `t`.
pub open spec fn spec_suffix(t: VersionFileType) -> Seq<char> {
    match t {
        VersionFileType::Compaction => seq!['f', 'l', 'u', 's', 'h'],
        VersionFileType::GarbageCollection => seq!['g', 'c', '_', 'm', 'a', 'r', 'k'],
    }
}

impl VersionFileType {
    /// The file suffix for this version file type.
    pub fn suffix(&self) -> (s: &'static str)
        ensures
            s@ == spec_suffix(*self),
    {
        match self {
            VersionFileType::Compaction => {
                let s = "flush";
                proof {
                    reveal_strlit("flush");
                }
                s
            },
            VersionFileType::GarbageCollection => {
                let s = "gc_mark";
                proof {
                    reveal_strlit("gc_mark");
                }
                s
            },
        }
    }
}


/// Why a storage backend could not read or write an object.
#[derive(Debug, Clone, PartialEq, Eq)]
pub enum StorageError {
    /// No object is stored under the path.
    NotFound { path: String },
    /// Any other failure of the backend, described.
    Other { message: String },
}

/// Errors of version file operations.
#[derive(Debug)]
pub enum VersionFileError {
    /// The storage backend failed.
    Storage(StorageError),
    /// The stored bytes are not a protobuf version file.
    Decode(DecodeError),
    /// The collection id of the file is not a UUID.
    InvalidUuid(uuid::Error),
    /// The file has no collection info.
    MissingCollectionInfo,
    /// The version file path is not usable.
    InvalidPath(String),
    /// The file lacks a required field.
    ValidationFailed(String),
}

/// The facts of a collection that decide where its version files go.
#[derive(Debug, Clone, PartialEq, Eq)]
pub struct Collection {
    pub collection_id: CollectionUuid,
    pub tenant: String,
    pub database: String,
}

/// Works out the names, checks and contents of version files kept in the
/// storage backend `S`; the caller performs the backend's reads and writes.
#[derive(Debug, Clone)]
pub struct VersionFileManager<S> {
    storage: S,
}

/// The path of a version file:
/// `tenant/{tenant}/database/{database}/collection/{collection}/versionfiles/{version}_{suffix}`.
pub open spec fn spec_version_file_path(
    tenant: Seq<char>,
    database: Seq<char>,
    collection_id: u128,
    version_id: Seq<char>,
    file_type: VersionFileType,
) -> Seq<char> {
    "tenant/"@ + tenant + "/database/"@ + database + "/collection/"@ + spec_uuid_text(
        collection_id,
    ) + "/versionfiles/"@ + version_id + "_"@ + spec_suffix(file_type)
}

/// The message with which a version file with collection info fails
/// validation, or `None` where it passes: the collection id, tenant id and
/// database id must be non-empty, the version history present, and the
/// collection name non-empty, checked in that order.
pub open spec fn spec_validation_message(f: VersionFileView) -> Option<Seq<char>>
    recommends
        f.collection_info_immutable is Some,
{
    let info = f.collection_info_immutable.unwrap();
    if info.collection_id.len() == 0 {
        Some("Collection ID cannot be empty"@)
    } else if info.tenant_id.len() == 0 {
        Some("Tenant ID cannot be empty"@)
    } else if info.database_id.len() == 0 {
        Some("Database ID cannot be empty"@)
    } else if f.version_history is None {
        Some("Version history cannot be empty"@)
    } else if info.collection_name.len() == 0 {
        Some("Collection name cannot be empty"@)
    } else {
        None
    }
}

/// Whether a version file passes validation.
pub open spec fn spec_is_valid(f: VersionFileView) -> bool {
    f.collection_info_immutable is Some && spec_validation_message(f) is None
}

/// Whether `res` is the outcome that validation gives for `f`.
pub open spec fn validation_outcome(f: VersionFileView, res: Result<(), VersionFileError>) -> bool {
    match f.collection_info_immutable {
        None => res matches Err(VersionFileError::MissingCollectionInfo),
        Some(_) => match spec_validation_message(f) {
            None => res is Ok,
            Some(m) => res matches Err(VersionFileError::ValidationFailed(m2)) && m2@ == m,
        },
    }
}

/// Whether `res` is what reading the stored bytes `content` gives: a
/// decoding error where they are not a version file, the validation error of
/// the decoded file, or the decoded file.
pub open spec fn read_outcome(
    content: Seq<u8>,
    res: Result<CollectionVersionFile, VersionFileError>,
) -> bool {
    match spec_decode_file(content) {
        None => res matches Err(VersionFileError::Decode(_)),
        Some(v) => match v.collection_info_immutable {
            None => res matches Err(VersionFileError::MissingCollectionInfo),
            Some(_) => match spec_validation_message(v) {
                None => res matches Ok(f) && f@ == v,
                Some(m) => res matches Err(VersionFileError::ValidationFailed(m2)) && m2@ == m,
            },
        },
    }
}

impl<S> VersionFileManager<S> {
    /// The storage backend of this manager.
    pub closed spec fn backend(&self) -> S {
        self.storage
    }

    /// A manager of the version files kept in `storage`.
    pub fn new(storage: S) -> (m: Self)
        ensures
            m.backend() == storage,
    {
        VersionFileManager { storage }
    }

    /// The storage backend of this manager.
    pub fn storage(&self) -> (s: &S)
        ensures
            *s == self.backend(),
    {
        &self.storage
    }

    /// The standard path of a version file of collection `collection_id` in
    /// database `database_id` of tenant `tenant_id`, for version
    /// `version_id` written by an operation of kind `file_type`.
    pub fn generate_version_file_path(
        &self,
        tenant_id: &str,
        database_id: &str,
        collection_id: &CollectionUuid,
        version_id: &str,
        file_type: VersionFileType,
    ) -> (path: String)
        ensures
            path@ == spec_version_file_path(
                tenant_id@,
                database_id@,
                collection_id.0,
                version_id@,
                file_type,
            ),
    {
        let mut path = String::from_str("tenant/");
        path.append(tenant_id);
        path.append("/database/");
        path.append(database_id);
        path.append("/collection/");
        let id_text = collection_id.to_string();
        path.append(id_text.as_str());
        path.append("/versionfiles/");
        path.append(version_id);
        path.append("_");
        path.append(file_type.suffix());
        path
    }

    /// Checks that a version file has collection info with non-empty
    /// collection id, tenant id, database id and collection name, and a
    /// version history.
    pub fn validate_version_file(&self, version_file: &CollectionVersionFile) -> (res: Result<
        (),
        VersionFileError,
    >)
        ensures
            validation_outcome(version_file@, res),
    {
        let collection_info = match &version_file.collection_info_immutable {
            None => {
                return Err(VersionFileError::MissingCollectionInfo);
            },
            Some(info) => info,
        };
        if collection_info.collection_id.as_str().is_empty() {
            return Err(
                VersionFileError::ValidationFailed(String::from_str("Collection ID cannot be empty")),
            );
        }
        if collection_info.tenant_id.as_str().is_empty() {
            return Err(
                VersionFileError::ValidationFailed(String::from_str("Tenant ID cannot be empty")),
            );
        }
        if collection_info.database_id.as_str().is_empty() {
            return Err(
                VersionFileError::ValidationFailed(String::from_str("Database ID cannot be empty")),
            );
        }
        if version_file.version_history.is_none() {
            return Err(
                VersionFileError::ValidationFailed(
                    String::from_str("Version history cannot be empty"),
                ),
            );
        }
        if collection_info.collection_name.as_str().is_empty() {
            return Err(
                VersionFileError::ValidationFailed(
                    String::from_str("Collection name cannot be empty"),
                ),
            );
        }
        Ok(())
    }

    /// The collection id of a version file.
    pub fn extract_collection_id(&self, version_file: &CollectionVersionFile) -> (res: Result<
        CollectionUuid,
        VersionFileError,
    >)
        ensures
            match version_file@.collection_info_immutable {
                None => res matches Err(VersionFileError::MissingCollectionInfo),
                Some(info) => match spec_parse_uuid(info.collection_id) {
                    Some(v) => res matches Ok(id) && id.0 == v,
                    None => res matches Err(VersionFileError::InvalidUuid(_)),
                },
            },
    {
        let info = match &version_file.collection_info_immutable {
            None => {
                return Err(VersionFileError::MissingCollectionInfo);
            },
            Some(info) => info,
        };
        match CollectionUuid::parse(info.collection_id.as_str()) {
            Ok(id) => Ok(id),
            Err(e) => Err(VersionFileError::InvalidUuid(e)),
        }
    }

    /// The tenant id of a version file.
    pub fn extract_tenant_id(&self, version_file: &CollectionVersionFile) -> (res: Result<
        String,
        VersionFileError,
    >)
        ensures
            match version_file@.collection_info_immutable {
                None => res matches Err(VersionFileError::MissingCollectionInfo),
                Some(info) => res matches Ok(t) && t@ == info.tenant_id,
            },
    {
        match &version_file.collection_info_immutable {
            None => Err(VersionFileError::MissingCollectionInfo),
            Some(info) => Ok(info.tenant_id.clone()),
        }
    }

    /// Checks the path of a version file to be fetched: it must not be
    /// empty.
    pub fn check_fetch_path(&self, version_file_path: &str) -> (res: Result<(), VersionFileError>)
        ensures
            version_file_path@.len() == 0 ==> (res matches Err(VersionFileError::InvalidPath(m))
                && m@ == "Version file path cannot be empty"@),
            version_file_path@.len() != 0 ==> res is Ok,
    {
        if version_file_path.is_empty() {
            Err(VersionFileError::InvalidPath(String::from_str("Version file path cannot be empty")))
        } else {
            Ok(())
        }
    }

    /// Decodes and validates the stored bytes of a version file.
    pub fn read_version_file(&self, content: &[u8]) -> (res: Result<
        CollectionVersionFile,
        VersionFileError,
    >)
        ensures
            read_outcome(content@, res),
    {
        let version_file = match decode_version_file(content) {
            Ok(f) => f,
            Err(e) => {
                return Err(VersionFileError::Decode(e));
            },
        };
        self.validate_version_file(&version_file)?;
        Ok(version_file)
    }

    /// What fetching a version file gives, once storage has answered with
    /// `fetched`: the storage error, or what `read_version_file` gives on
    /// the stored bytes.
    pub fn finish_fetch(&self, fetched: Result<Vec<u8>, StorageError>) -> (res: Result<
        CollectionVersionFile,
        VersionFileError,
    >)
        ensures
            match fetched {
                Err(e) => res matches Err(VersionFileError::Storage(e2)) && e2 == e,
                Ok(content) => read_outcome(content@, res),
            },
    {
        match fetched {
            Err(e) => Err(VersionFileError::Storage(e)),
            Ok(content) => self.read_version_file(content.as_slice()),
        }
    }

    /// Where and what to store for uploading `version_file` as version
    /// `new_version_id` of `collection`: the standard path, and the file's
    /// protobuf encoding.
    pub fn prepare_upload(
        &self,
        version_file: &CollectionVersionFile,
        collection: &Collection,
        file_type: VersionFileType,
        new_version_id: &str,
    ) -> (res: (String, Vec<u8>))
        ensures
            res.0@ == spec_version_file_path(
                collection.tenant@,
                collection.database@,
                collection.collection_id.0,
                new_version_id@,
                file_type,
            ),
            res.1@ == spec_encode_file(version_file@),
    {
        let path = self.generate_version_file_path(
            collection.tenant.as_str(),
            collection.database.as_str(),
            &collection.collection_id,
            new_version_id,
            file_type,
        );
        let content = encode_version_file(version_file);
        (path, content)
    }

    /// What uploading to `path` gives, once storage has answered with
    /// `stored`: the path, or the storage error.
    pub fn finish_upload(&self, path: String, stored: Result<(), StorageError>) -> (res: Result<
        String,
        VersionFileError,
    >)
        ensures
            match stored {
                Ok(()) => res matches Ok(p) && p@ == path@,
                Err(e) => res matches Err(VersionFileError::Storage(e2)) && e2 == e,
            },
    {
        match stored {
            Ok(()) => Ok(path),
            Err(e) => Err(VersionFileError::Storage(e)),
        }
    }
}

/// Uploading a version file and fetching it back: the bytes that
/// `prepare_upload` stores read back, through `read_version_file` or
/// `finish_fetch`, as the same file when it is valid, and otherwise as the
/// error that validating it gives; the nested messages that versions keep as
/// bytes must be well-formed, as decoding checks.
pub proof fn lemma_upload_then_fetch(
    f: VersionFileView,
    res: Result<CollectionVersionFile, VersionFileError>,
)
    requires
        spec_encode_file(f).len() <= u64::MAX,
        crate::proto::spec_file_nested_ok(f),
        read_outcome(spec_encode_file(f), res),
    ensures
        match res {
            Ok(g) => spec_is_valid(f) && g@ == f,
            Err(e) => !spec_is_valid(f) && validation_outcome(f, Err(e)),
        },
{
    crate::roundtrip::lemma_version_file_roundtrip(f);
}

/// Two version files of one collection get the same path only when they are
/// for the same version and written by the same kind of operation: uploading
/// a new version never overwrites another version's file.
pub proof fn lemma_version_file_paths_distinct(
    tenant: Seq<char>,
    database: Seq<char>,
    collection_id: u128,
    version_a: Seq<char>,
    type_a: VersionFileType,
    version_b: Seq<char>,
    type_b: VersionFileType,
)
    requires
        spec_version_file_path(tenant, database, collection_id, version_a, type_a)
            == spec_version_file_path(tenant, database, collection_id, version_b, type_b),
    ensures
        version_a == version_b,
        type_a == type_b,
{
    let prefix = "tenant/"@ + tenant + "/database/"@ + database + "/collection/"@ + spec_uuid_text(
        collection_id,
    ) + "/versionfiles/"@;
    let pa = spec_version_file_path(tenant, database, collection_id, version_a, type_a);
    let pb = spec_version_file_path(tenant, database, collection_id, version_b, type_b);
    let sa = spec_suffix(type_a);
    let sb = spec_suffix(type_b);
    assert(pa == prefix + version_a + "_"@ + sa);
    assert(pb == prefix + version_b + "_"@ + sb);
    assert(pa[pa.len() - 1] == sa[sa.len() - 1]);
    assert(pb[pb.len() - 1] == sb[sb.len() - 1]);
    assert(type_a == type_b);
    assert(version_a.len() == version_b.len());
    assert(version_a =~= version_b) by {
        assert forall|i: int| 0 <= i < version_a.len() implies version_a[i] == version_b[i] by {
            assert(pa[prefix.len() + i] == version_a[i]);
            assert(pb[prefix.len() + i] == version_b[i]);
        }
    }
}
} // verus!
