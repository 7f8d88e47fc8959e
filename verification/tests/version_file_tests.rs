use std::cell::RefCell;

use prost::encoding::{skip_field, DecodeContext, WireType};
use std::collections::HashMap;

use version_file::collection_uuid::CollectionUuid;
use version_file::proto::{
    decode_version_file, encode_version_file, nested_messages_ok, CollectionInfoImmutable, CollectionVersionFile,
    CollectionVersionHistory, CollectionVersionInfo,
};
use version_file::version_file::{
    Collection, StorageError, VersionFileError, VersionFileManager, VersionFileType,
};

const COLLECTION: u128 = 0x936da01f_9abd_4d9d_80c7_02af85c822a8;
const TENANT: u128 = 0x550e8400_e29b_41d4_a716_446655440000;
const DATABASE: u128 = 0xa1a2a3a4_b1b2_c1c2_d1d2_d3d4d5d6d7d8;

/// An in-memory object store standing in for the storage backend.
struct MemoryStorage {
    objects: RefCell<HashMap<String, Vec<u8>>>,
}

impl MemoryStorage {
    fn new() -> Self {
        MemoryStorage { objects: RefCell::new(HashMap::new()) }
    }

    fn get(&self, path: &str) -> Result<Vec<u8>, StorageError> {
        self.objects
            .borrow()
            .get(path)
            .cloned()
            .ok_or(StorageError::NotFound { path: path.to_string() })
    }

    fn put(&self, path: &str, bytes: Vec<u8>) -> Result<(), StorageError> {
        self.objects.borrow_mut().insert(path.to_string(), bytes);
        Ok(())
    }
}

type Manager = VersionFileManager<MemoryStorage>;

fn create_test_manager() -> Manager {
    VersionFileManager::new(MemoryStorage::new())
}

fn fetch(manager: &Manager, path: &str) -> Result<CollectionVersionFile, VersionFileError> {
    manager.check_fetch_path(path)?;
    manager.finish_fetch(manager.storage().get(path))
}

fn upload(
    manager: &Manager,
    version_file: &CollectionVersionFile,
    collection: &Collection,
    file_type: VersionFileType,
    version_id: &str,
) -> Result<String, VersionFileError> {
    let (path, content) = manager.prepare_upload(version_file, collection, file_type, version_id);
    let stored = manager.storage().put(&path, content);
    manager.finish_upload(path, stored)
}

fn uuid_text(v: u128) -> String {
    uuid::Uuid::from_u128(v).to_string()
}

fn create_test_version_file() -> CollectionVersionFile {
    CollectionVersionFile {
        collection_info_immutable: Some(CollectionInfoImmutable {
            tenant_id: uuid_text(TENANT),
            database_id: uuid_text(DATABASE),
            database_name: "test_db".to_string(),
            is_deleted: false,
            dimension: 128,
            collection_id: uuid_text(COLLECTION),
            collection_name: "test_collection".to_string(),
            collection_creation_secs: 1640995200,
        }),
        version_history: Some(CollectionVersionHistory { versions: vec![] }),
    }
}

fn create_test_collection() -> Collection {
    Collection {
        collection_id: CollectionUuid(COLLECTION),
        tenant: uuid_text(TENANT),
        database: uuid_text(DATABASE),
    }
}

fn collection_id_of(f: &CollectionVersionFile) -> String {
    f.collection_info_immutable.as_ref().unwrap().collection_id.clone()
}

#[test]
fn test_upload_and_fetch_version_file() {
    let manager = create_test_manager();
    let version_file = create_test_version_file();
    let collection = create_test_collection();
    let version_id = "000001_test_version";

    let uploaded_path = upload(
        &manager,
        &version_file,
        &collection,
        VersionFileType::Compaction,
        version_id,
    )
    .unwrap();

    let expected_path = format!(
        "tenant/{}/database/{}/collection/{}/versionfiles/{}_{}",
        collection.tenant,
        collection.database,
        uuid_text(COLLECTION),
        version_id,
        VersionFileType::Compaction.suffix()
    );
    assert_eq!(uploaded_path, expected_path);

    let fetched_file = fetch(&manager, &uploaded_path).unwrap();
    assert_eq!(collection_id_of(&fetched_file), collection_id_of(&version_file));
}

#[test]
fn test_fetch_nonexistent_version_file() {
    let manager = create_test_manager();
    let result = fetch(&manager, "nonexistent/file.binpb");
    assert!(matches!(result, Err(VersionFileError::Storage(_))));
}

#[test]
fn test_validate_version_file() {
    let manager = create_test_manager();

    let valid_file = create_test_version_file();
    assert!(manager.validate_version_file(&valid_file).is_ok());

    let mut invalid_file = create_test_version_file();
    invalid_file.collection_info_immutable = None;
    assert!(matches!(
        manager.validate_version_file(&invalid_file),
        Err(VersionFileError::MissingCollectionInfo)
    ));
}

#[test]
fn test_extract_collection_id() {
    let manager = create_test_manager();
    let version_file = create_test_version_file();

    let expected_id = collection_id_of(&version_file).parse::<uuid::Uuid>().unwrap();

    let extracted_id = manager.extract_collection_id(&version_file).unwrap();
    assert_eq!(extracted_id, CollectionUuid(expected_id.as_u128()));
}

#[test]
fn test_empty_path_validation() {
    let manager = create_test_manager();
    let fetch_result = fetch(&manager, "");
    assert!(matches!(fetch_result, Err(VersionFileError::InvalidPath(_))));
}

#[test]
fn test_upload_modify_and_reupload() {
    let manager = create_test_manager();
    let collection = create_test_collection();
    let mut version_file = create_test_version_file();

    let initial_version_id = "000001_test_version";
    let upload_result = upload(
        &manager,
        &version_file,
        &collection,
        VersionFileType::Compaction,
        initial_version_id,
    );
    assert!(upload_result.is_ok());
    let initial_path = upload_result.unwrap();

    let downloaded = fetch(&manager, &initial_path).unwrap();
    assert_eq!(collection_id_of(&downloaded), collection_id_of(&version_file));
    assert_eq!(
        downloaded.version_history.as_ref().unwrap().versions.len(),
        version_file.version_history.as_ref().unwrap().versions.len()
    );

    let original_version_count = version_file.version_history.as_ref().unwrap().versions.len();
    let new_version = CollectionVersionInfo {
        version: 999,
        created_at_secs: 1234567890,
        marked_for_deletion: false,
        ..Default::default()
    };
    version_file.version_history.as_mut().unwrap().versions.push(new_version);

    let modified_version_id = "000002_test_version";
    let reupload_result = upload(
        &manager,
        &version_file,
        &collection,
        VersionFileType::Compaction,
        modified_version_id,
    );
    assert!(reupload_result.is_ok());
    let modified_path = reupload_result.unwrap();

    let expected_modified_path = format!(
        "tenant/{}/database/{}/collection/{}/versionfiles/{}_{}",
        collection.tenant,
        collection.database,
        uuid_text(COLLECTION),
        modified_version_id,
        VersionFileType::Compaction.suffix()
    );
    assert_eq!(modified_path, expected_modified_path);

    let modified_downloaded = fetch(&manager, &modified_path).unwrap();
    assert_eq!(collection_id_of(&modified_downloaded), collection_id_of(&version_file));
    assert_eq!(
        modified_downloaded.version_history.as_ref().unwrap().versions.len(),
        original_version_count + 1
    );
    assert_eq!(
        modified_downloaded
            .version_history
            .as_ref()
            .unwrap()
            .versions
            .last()
            .unwrap()
            .version,
        999
    );

    let original_downloaded = fetch(&manager, &initial_path).unwrap();
    assert_eq!(
        original_downloaded.version_history.as_ref().unwrap().versions.len(),
        original_version_count
    );
}

// Further cases.

#[test]
fn suffixes_name_the_operation() {
    assert_eq!(VersionFileType::Compaction.suffix(), "flush");
    assert_eq!(VersionFileType::GarbageCollection.suffix(), "gc_mark");
}

#[test]
fn path_of_garbage_collection_file() {
    let manager = create_test_manager();
    let path = manager.generate_version_file_path(
        "tenant-a",
        "db-b",
        &CollectionUuid(COLLECTION),
        "7",
        VersionFileType::GarbageCollection,
    );
    assert_eq!(
        path,
        "tenant/tenant-a/database/db-b/collection/936da01f-9abd-4d9d-80c7-02af85c822a8/versionfiles/7_gc_mark"
    );
}

#[test]
fn collection_uuid_text_is_lower_hyphenated() {
    assert_eq!(
        CollectionUuid(DATABASE).to_string(),
        "a1a2a3a4-b1b2-c1c2-d1d2-d3d4d5d6d7d8"
    );
    assert_eq!(CollectionUuid(0).to_string(), "00000000-0000-0000-0000-000000000000");
}

#[test]
fn collection_uuid_parses_every_form() {
    let forms = [
        "a1a2a3a4-b1b2-c1c2-d1d2-d3d4d5d6d7d8",
        "A1A2A3A4-B1B2-C1C2-D1D2-D3D4D5D6D7D8",
        "a1a2a3a4b1b2c1c2d1d2d3d4d5d6d7d8",
        "{a1a2a3a4-b1b2-c1c2-d1d2-d3d4d5d6d7d8}",
        "urn:uuid:a1a2a3a4-b1b2-c1c2-d1d2-d3d4d5d6d7d8",
        "URN:UUID:a1a2a3a4-b1b2-c1c2-d1d2-d3d4d5d6d7d8",
    ];
    for f in forms {
        assert_eq!(CollectionUuid::parse(f).unwrap(), CollectionUuid(DATABASE), "{}", f);
    }
}

#[test]
fn collection_uuid_rejects_malformed_text() {
    let bad = [
        "",
        "a1a2a3a4-b1b2-c1c2-d1d2-d3d4d5d6d7d",
        "a1a2a3a4_b1b2-c1c2-d1d2-d3d4d5d6d7d8",
        "g1a2a3a4-b1b2-c1c2-d1d2-d3d4d5d6d7d8",
        "[a1a2a3a4-b1b2-c1c2-d1d2-d3d4d5d6d7d8]",
        "urn:uuix:a1a2a3a4-b1b2-c1c2-d1d2-d3d4d5d6d7d8",
    ];
    for b in bad {
        assert!(CollectionUuid::parse(b).is_err(), "{}", b);
    }
}

#[test]
fn extract_collection_id_rejects_non_uuid() {
    let manager = create_test_manager();
    let mut f = create_test_version_file();
    f.collection_info_immutable.as_mut().unwrap().collection_id = "not-a-uuid".to_string();
    assert!(matches!(
        manager.extract_collection_id(&f),
        Err(VersionFileError::InvalidUuid(_))
    ));
    f.collection_info_immutable = None;
    assert!(matches!(
        manager.extract_collection_id(&f),
        Err(VersionFileError::MissingCollectionInfo)
    ));
}

#[test]
fn extract_tenant_id_gives_tenant() {
    let manager = create_test_manager();
    let f = create_test_version_file();
    assert_eq!(manager.extract_tenant_id(&f).unwrap(), uuid_text(TENANT));
    let empty = CollectionVersionFile::default();
    assert!(matches!(
        manager.extract_tenant_id(&empty),
        Err(VersionFileError::MissingCollectionInfo)
    ));
}

fn validation_message(f: &CollectionVersionFile) -> Option<String> {
    match create_test_manager().validate_version_file(f) {
        Err(VersionFileError::ValidationFailed(m)) => Some(m),
        _ => None,
    }
}

#[test]
fn validation_names_the_first_missing_field() {
    let mut f = create_test_version_file();
    f.collection_info_immutable.as_mut().unwrap().collection_name = String::new();
    assert_eq!(validation_message(&f).unwrap(), "Collection name cannot be empty");
    f.version_history = None;
    assert_eq!(validation_message(&f).unwrap(), "Version history cannot be empty");
    f.collection_info_immutable.as_mut().unwrap().database_id = String::new();
    assert_eq!(validation_message(&f).unwrap(), "Database ID cannot be empty");
    f.collection_info_immutable.as_mut().unwrap().tenant_id = String::new();
    assert_eq!(validation_message(&f).unwrap(), "Tenant ID cannot be empty");
    f.collection_info_immutable.as_mut().unwrap().collection_id = String::new();
    assert_eq!(validation_message(&f).unwrap(), "Collection ID cannot be empty");
}

#[test]
fn empty_path_message() {
    let manager = create_test_manager();
    match manager.check_fetch_path("") {
        Err(VersionFileError::InvalidPath(m)) => {
            assert_eq!(m, "Version file path cannot be empty")
        }
        other => panic!("unexpected {:?}", other),
    }
    assert!(manager.check_fetch_path("a").is_ok());
}

#[test]
fn fetch_of_invalid_file_fails_validation() {
    let manager = create_test_manager();
    let mut f = create_test_version_file();
    f.version_history = None;
    let path = upload(
        &manager,
        &f,
        &create_test_collection(),
        VersionFileType::GarbageCollection,
        "3",
    )
    .unwrap();
    assert!(path.ends_with("/versionfiles/3_gc_mark"));
    assert!(matches!(
        fetch(&manager, &path),
        Err(VersionFileError::ValidationFailed(_))
    ));
}

#[test]
fn fetch_of_garbage_is_a_decode_error() {
    let manager = create_test_manager();
    let result = manager.finish_fetch(Ok(vec![0x0a, 0x05, 0x01]));
    assert!(matches!(result, Err(VersionFileError::Decode(_))));
}

#[test]
fn failed_upload_reports_storage_error() {
    let manager = create_test_manager();
    let res = manager.finish_upload(
        "p".to_string(),
        Err(StorageError::Other { message: "disk full".to_string() }),
    );
    assert!(matches!(res, Err(VersionFileError::Storage(StorageError::Other { .. }))));
    assert_eq!(manager.finish_upload("p".to_string(), Ok(())).unwrap(), "p");
}

#[test]
fn encoding_of_a_small_file() {
    let f = CollectionVersionFile {
        collection_info_immutable: Some(CollectionInfoImmutable {
            tenant_id: "t".to_string(),
            ..Default::default()
        }),
        version_history: None,
    };
    assert_eq!(encode_version_file(&f), vec![0x0a, 0x03, 0x0a, 0x01, 0x74]);
}

#[test]
fn encoding_of_scalars_and_versions() {
    let f = CollectionVersionFile {
        collection_info_immutable: Some(CollectionInfoImmutable {
            is_deleted: true,
            dimension: -1,
            collection_creation_secs: 300,
            ..Default::default()
        }),
        version_history: Some(CollectionVersionHistory {
            versions: vec![CollectionVersionInfo {
                version: 1,
                segment_info: Some(vec![0x08, 0x02]),
                ..Default::default()
            }],
        }),
    };
    let bytes = encode_version_file(&f);
    let mut expected = vec![0x0a, 0x10, 0x20, 0x01, 0x28];
    expected.extend_from_slice(&[0xff; 9]);
    expected.push(0x01);
    expected.extend_from_slice(&[0x40, 0xac, 0x02]);
    expected.extend_from_slice(&[0x12, 0x08, 0x0a, 0x06, 0x08, 0x01, 0x12, 0x02, 0x08, 0x02]);
    assert_eq!(bytes, expected);
    assert_eq!(decode_version_file(&bytes).unwrap(), f);
}

#[test]
fn empty_input_decodes_to_empty_file() {
    assert_eq!(decode_version_file(&[]).unwrap(), CollectionVersionFile::default());
}

#[test]
fn default_messages_still_written_when_present() {
    let f = CollectionVersionFile {
        collection_info_immutable: Some(CollectionInfoImmutable::default()),
        version_history: Some(CollectionVersionHistory::default()),
    };
    let bytes = encode_version_file(&f);
    assert_eq!(bytes, vec![0x0a, 0x00, 0x12, 0x00]);
    assert_eq!(decode_version_file(&bytes).unwrap(), f);
}

#[test]
fn round_trip_of_full_file() {
    let mut f = create_test_version_file();
    f.version_history.as_mut().unwrap().versions.push(CollectionVersionInfo {
        version: i64::MIN,
        segment_info: Some(vec![0x08, 0x96, 0x01, 0x1a, 0x01, 0x61]),
        collection_info_mutable: Some(vec![]),
        created_at_secs: -5,
        version_change_reason: 3,
        version_file_name: "v_é".to_string(),
        marked_for_deletion: true,
    });
    f.version_history.as_mut().unwrap().versions.push(CollectionVersionInfo::default());
    let bytes = encode_version_file(&f);
    assert_eq!(decode_version_file(&bytes).unwrap(), f);
}

#[test]
fn unknown_fields_are_skipped() {
    // field 9 varint 5, field 10 length-delimited "ab", then tenant_id "x"
    let info = vec![0x48, 0x05, 0x52, 0x02, 0x61, 0x62, 0x0a, 0x01, 0x78];
    let mut bytes = vec![0x0a, info.len() as u8];
    bytes.extend_from_slice(&info);
    let f = decode_version_file(&bytes).unwrap();
    assert_eq!(f.collection_info_immutable.unwrap().tenant_id, "x");
}

#[test]
fn repeated_scalar_keeps_last_and_messages_merge() {
    // info { tenant_id: "a" }, info { tenant_id: "b", collection_name: "c" }
    let bytes = vec![
        0x0a, 0x03, 0x0a, 0x01, 0x61, 0x0a, 0x06, 0x0a, 0x01, 0x62, 0x3a, 0x01, 0x63,
    ];
    let info = decode_version_file(&bytes).unwrap().collection_info_immutable.unwrap();
    assert_eq!(info.tenant_id, "b");
    assert_eq!(info.collection_name, "c");
    // segment_info occurring twice is joined
    let version = vec![0x12, 0x02, 0x08, 0x01, 0x12, 0x02, 0x10, 0x02];
    let mut history = vec![0x0a, version.len() as u8];
    history.extend_from_slice(&version);
    let mut file = vec![0x12, history.len() as u8];
    file.extend_from_slice(&history);
    let f = decode_version_file(&file).unwrap();
    assert_eq!(
        f.version_history.unwrap().versions[0].segment_info,
        Some(vec![0x08, 0x01, 0x10, 0x02])
    );
}

#[test]
fn malformed_inputs_are_rejected() {
    // truncated length-delimited field
    assert!(decode_version_file(&[0x0a, 0x05, 0x0a]).is_err());
    // wrong wire type for a message field
    assert!(decode_version_file(&[0x08, 0x01]).is_err());
    // wrong wire type for a string field inside the info
    assert!(decode_version_file(&[0x0a, 0x02, 0x08, 0x01]).is_err());
    // key with tag 0
    assert!(decode_version_file(&[0x02, 0x00]).is_err());
    // invalid wire type 7
    assert!(decode_version_file(&[0x0f]).is_err());
    // unterminated varint
    assert!(decode_version_file(&[0x80]).is_err());
    // invalid UTF-8 in a string
    assert!(decode_version_file(&[0x0a, 0x03, 0x0a, 0x01, 0xff]).is_err());
    // eleven-byte varint
    let mut long = vec![0x48];
    long.extend_from_slice(&[0x80; 10]);
    long.push(0x00);
    assert!(decode_version_file(&long).is_err());
}

#[test]
fn paths_differ_by_version_and_type() {
    let manager = create_test_manager();
    let id = CollectionUuid(COLLECTION);
    let a = manager.generate_version_file_path("t", "d", &id, "1", VersionFileType::Compaction);
    let b = manager.generate_version_file_path("t", "d", &id, "2", VersionFileType::Compaction);
    let c =
        manager.generate_version_file_path("t", "d", &id, "1", VersionFileType::GarbageCollection);
    assert_ne!(a, b);
    assert_ne!(a, c);
    assert_ne!(b, c);
}

#[test]
fn varint_lengths_at_boundaries() {
    // version 127 takes one byte, 128 two, -1 ten
    for (v, len) in [(127i64, 1usize), (128, 2), (16383, 2), (16384, 3), (-1, 10)] {
        let f = CollectionVersionFile {
            collection_info_immutable: None,
            version_history: Some(CollectionVersionHistory {
                versions: vec![CollectionVersionInfo { version: v, ..Default::default() }],
            }),
        };
        let bytes = encode_version_file(&f);
        // file key, file length, history key, history length, version key, varint
        assert_eq!(bytes.len(), 5 + len, "{}", v);
        assert_eq!(decode_version_file(&bytes).unwrap(), f);
    }
}

#[test]
fn malformed_nested_message_is_rejected() {
    // version { segment_info: bytes 0xff }, which is no field sequence
    let version = vec![0x12, 0x01, 0xff];
    let mut history = vec![0x0a, version.len() as u8];
    history.extend_from_slice(&version);
    let mut file = vec![0x12, history.len() as u8];
    file.extend_from_slice(&history);
    assert!(decode_version_file(&file).is_err());

    let f = CollectionVersionFile {
        collection_info_immutable: None,
        version_history: Some(CollectionVersionHistory {
            versions: vec![CollectionVersionInfo {
                collection_info_mutable: Some(vec![0x08]),
                ..Default::default()
            }],
        }),
    };
    assert!(decode_version_file(&encode_version_file(&f)).is_err());
}

/// `n` empty groups of field 9, nested in one another.
fn nested_groups(n: usize) -> Vec<u8> {
    let mut g = vec![0x4b; n];
    g.extend(std::iter::repeat(0x4c).take(n));
    g
}

fn length_prefixed(tag_key: u8, body: &[u8]) -> Vec<u8> {
    let mut out = vec![tag_key];
    let mut len = body.len();
    while len >= 0x80 {
        out.push((len as u8 & 0x7f) | 0x80);
        len >>= 7;
    }
    out.push(len as u8);
    out.extend_from_slice(body);
    out
}

#[test]
fn prost_skip_budget_is_one_hundred_groups() {
    let ok = nested_groups(100);
    let mut buf: &[u8] = &ok[1..];
    assert!(skip_field(WireType::StartGroup, 9, &mut buf, DecodeContext::default()).is_ok());
    let deep = nested_groups(101);
    let mut buf: &[u8] = &deep[1..];
    assert!(skip_field(WireType::StartGroup, 9, &mut buf, DecodeContext::default()).is_err());
}

#[test]
fn unknown_groups_at_top_level_use_the_whole_budget() {
    assert!(decode_version_file(&nested_groups(100)).is_ok());
    assert!(decode_version_file(&nested_groups(101)).is_err());
}

#[test]
fn unknown_groups_in_nested_messages_use_what_is_left() {
    // inside the collection info, one level is spent
    let file = length_prefixed(0x0a, &nested_groups(99));
    assert!(decode_version_file(&file).is_ok());
    let file = length_prefixed(0x0a, &nested_groups(100));
    assert!(decode_version_file(&file).is_err());
    // inside a version, two levels are spent
    let history = length_prefixed(0x0a, &nested_groups(98));
    assert!(decode_version_file(&length_prefixed(0x12, &history)).is_ok());
    let history = length_prefixed(0x0a, &nested_groups(99));
    assert!(decode_version_file(&length_prefixed(0x12, &history)).is_err());
    // inside a nested message kept as bytes, three levels are spent
    let version = length_prefixed(0x12, &nested_groups(97));
    let history = length_prefixed(0x0a, &version);
    assert!(decode_version_file(&length_prefixed(0x12, &history)).is_ok());
    let version = length_prefixed(0x12, &nested_groups(98));
    let history = length_prefixed(0x0a, &version);
    assert!(decode_version_file(&length_prefixed(0x12, &history)).is_err());
}

#[test]
fn nested_messages_are_checked_before_upload() {
    let mut f = create_test_version_file();
    assert!(nested_messages_ok(&f));
    f.version_history.as_mut().unwrap().versions.push(CollectionVersionInfo {
        segment_info: Some(vec![0x08, 0x01]),
        collection_info_mutable: Some(vec![]),
        ..Default::default()
    });
    assert!(nested_messages_ok(&f));
    f.version_history.as_mut().unwrap().versions.push(CollectionVersionInfo {
        collection_info_mutable: Some(vec![0xff]),
        ..Default::default()
    });
    assert!(!nested_messages_ok(&f));
    assert!(decode_version_file(&encode_version_file(&f)).is_err());
    assert!(nested_messages_ok(&CollectionVersionFile::default()));
}
