# version_file

Collection version files: where they are stored, how they are checked, and
their protobuf encoding, verified with Verus.

- `src/version_file.rs`: version file types and their suffixes, the storage
  path of a version file, validation, the collection and tenant ids of a
  file, and the steps of fetching and uploading around the storage backend's
  reads and writes.
- `src/proto.rs`: the messages of a version file, their abstract views, and
  their encoding and decoding as protobuf.
- `src/roundtrip.rs`: every message decodes from its own encoding to the
  value that was encoded, where the nested messages kept as bytes are
  well-formed field sequences.
- `src/wire.rs`: varints, field keys and length-delimited chunks as spec
  functions, with their read-back lemmas.
- `src/nesting.rs`: skipping unknown fields at a nesting depth, and checking
  nested messages that are kept as bytes.
- `src/wire_io.rs`: the `prost` encoding functions that the codec calls.
- `src/collection_uuid.rs`: collection ids, their canonical text and the texts
  that parse as one.
- `app/`: a local-directory storage backend and the asynchronous fetch and
  upload built on the library.
