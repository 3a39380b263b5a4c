use kvgraph::error::{ErrorKind, IndexError, StoreCall};
use kvgraph::kv_codec::neighbor::{serialize, validate_and_count};
use kvgraph::kv_codec::{quant, vector};

#[test]
fn serialize_then_count_round_trip() {
    let neighbors: Vec<u32> = vec![1, 2, 3];
    let bytes = serialize(&neighbors);

    // Result is 4 IDs: 1, 2, 3, len=3, => 16 bytes for u32.
    assert_eq!(bytes.len(), 4 * std::mem::size_of::<u32>());

    let mut slots = [0u32; 8];
    bytemuck::cast_slice_mut::<u32, u8>(&mut slots)[..bytes.len()].copy_from_slice(&bytes);

    let nbr_count = validate_and_count::<u32>(bytes.len(), 8, &slots).unwrap();
    assert_eq!(nbr_count, 3);
    assert_eq!(&slots[..nbr_count], &[1, 2, 3]);
}

#[test]
fn empty_read_returns_zero() {
    let slots = [0u32; 4];
    assert_eq!(validate_and_count::<u32>(0, 4, &slots).unwrap(), 0);
}

#[test]
fn shorter_than_single_id_errors() {
    let slots = [0u32; 4];
    let result = validate_and_count::<u32>(2, 4, &slots);
    assert!(result.is_err());
    assert!(matches!(result, Err(IndexError::ListShorterThanId)));
}

#[test]
fn longer_than_max_degree_errors() {
    let slots = [0u32; 4];
    // dim=4, id_size=4, so max bytes = 16; supply 20.
    let result = validate_and_count::<u32>(20, 4, &slots);
    assert!(result.is_err());
    assert!(matches!(result, Err(IndexError::ListLongerThanMaxDegree)));
}

#[test]
fn non_multiple_size_errors() {
    let slots = [0u32; 4];
    let result = validate_and_count::<u32>(7, 4, &slots);
    assert!(result.is_err());
    assert!(matches!(result, Err(IndexError::ListNotMultipleOfId)));
}

#[test]
fn declared_length_greater_than_payload_errors() {
    // read_size = 8 bytes (= 2 u32 slots): one neighbor + one length
    // length declared = 5 (impossible because we only have 1 actual neighbor)
    let slots = [9u32, 5, 0, 0];
    let result = validate_and_count::<u32>(8, 8, &slots);
    assert!(result.is_err());
    assert!(matches!(result, Err(IndexError::ListShorterThanDeclared)));
}

#[test]
fn set_validation_ok() {
    quant::validate_set(0, 10, 4, 4).unwrap();
    quant::validate_set_quant(0, 10, 2, 2).unwrap();
    quant::validate_read_size("test", 0, 16, 16).unwrap();
}

#[test]
fn set_id_out_of_range() {
    assert!(quant::validate_set(10, 10, 4, 4).is_err());
    assert!(quant::validate_set_quant(10, 10, 2, 2).is_err());
}

#[test]
fn set_dim_mismatch() {
    assert!(quant::validate_set(0, 10, 3, 4).is_err());
    assert!(quant::validate_set_quant(0, 10, 3, 2).is_err());
}

#[test]
fn validate_set_ok() {
    vector::validate_set(0, 10, 4, 4).unwrap();
}

#[test]
fn validate_set_dim_mismatch() {
    assert!(vector::validate_set(0, 10, 3, 4).is_err());
}

#[test]
fn validate_set_id_out_of_range() {
    assert!(vector::validate_set(10, 10, 4, 4).is_err());
}

#[test]
fn validate_read_size_ok() {
    vector::validate_read_size("test", 0, 16, 16).unwrap();
}

#[test]
fn validate_read_size_mismatch() {
    let err = vector::validate_read_size("test", 7, 12, 16).unwrap_err();
    assert!(err.message().contains("vector id 7"));
    assert_eq!(
        err.message(),
        "The test entry for vector id 7 has size 12 instead of the expected size 16"
    );
}

#[test]
fn lists_end_with_their_length() {
    assert_eq!(serialize::<u32>(&[]), vec![0, 0, 0, 0]);
    let one = [0x01020304u32.to_ne_bytes(), 1u32.to_ne_bytes()].concat();
    assert_eq!(serialize::<u32>(&[0x01020304]), one);
    let wide = [5u64.to_ne_bytes(), 1u64.to_ne_bytes()].concat();
    assert_eq!(serialize::<u64>(&[5]), wide);
}

#[test]
fn wide_ids_are_counted() {
    assert_eq!(validate_and_count::<u64>(16, 2, &[9u64, 1]).unwrap(), 1);
    assert!(matches!(
        validate_and_count::<u64>(16, 2, &[9u64, 2]),
        Err(IndexError::ListShorterThanDeclared)
    ));
    // A padded list holds more slots than it declares ids.
    assert_eq!(validate_and_count::<u32>(20, 5, &[7u32, 8, 0, 0, 2]).unwrap(), 2);
}

#[test]
fn the_order_of_the_checks_of_vectors() {
    // Both the id and the dimension are wrong.
    assert!(matches!(vector::validate_set(10, 10, 3, 4), Err(IndexError::VectorDimension)));
    assert!(matches!(quant::validate_set(10, 10, 3, 4), Err(IndexError::VectorIdOutOfRange)));
    assert!(matches!(quant::validate_set(1, 10, 3, 4), Err(IndexError::F32Dimension)));
    assert!(matches!(
        quant::validate_set_quant(10, 10, 3, 2),
        Err(IndexError::VectorIdOutOfRange)
    ));
    assert!(matches!(quant::validate_set_quant(1, 10, 3, 2), Err(IndexError::VectorDimension)));
}

#[test]
fn texts_and_kinds_of_errors() {
    let cases = [
        (
            IndexError::ListShorterThanId,
            "Retrieved neighbor list is shorter than a single VectorID",
        ),
        (
            IndexError::ListLongerThanMaxDegree,
            "Retrieved neighbor list is longer than the max degree",
        ),
        (
            IndexError::ListNotMultipleOfId,
            "Retrieved neighbor list length is not in the multiple of VectorID",
        ),
        (
            IndexError::ListShorterThanDeclared,
            "The length of the retrieved neighbor list is shorter than the specified length",
        ),
        (
            IndexError::ListExceedsMaxDegree,
            "The provided neighbor list is longer than the max degree",
        ),
        (
            IndexError::VectorDimension,
            "Vector dimension is not equal to the expected dimension.",
        ),
        (
            IndexError::F32Dimension,
            "Vector f32 dimension is not equal to the expected dimension.",
        ),
        (IndexError::VectorIdOutOfRange, "Vector id is out of boundary in the dataset."),
        (
            IndexError::VectorNotFound { backend: "redb", id: 3 },
            "The redb entry for vector id 3 is not found",
        ),
        (
            IndexError::NeighborsNotFound { backend: "rocksdb" },
            "The rocksdb entry for the vector key is not found",
        ),
        (
            IndexError::BufferDimension { expected: 4, actual: 10 },
            "expected a buffer with dim 4, instead got 10",
        ),
        (
            IndexError::IdConversion { value: 4294967296 },
            "could not convert integer usize(4294967296) to a VectorId of type u32",
        ),
        (IndexError::Conversion { detail: "no floats".to_string() }, "no floats"),
        (IndexError::Compression { detail: "no table".to_string() }, "no table"),
        (
            IndexError::ResetNeighbors {
                id: 12,
                backend: "rocksdb",
                detail: "disk full".to_string(),
            },
            "resetting neighbors for undeleted id 12: rocksdb put failed: disk full",
        ),
        (
            IndexError::Backend {
                backend: "redb",
                call: StoreCall::BeginRead,
                detail: "locked".to_string(),
            },
            "redb begin_read failed: locked",
        ),
        (
            IndexError::Backend {
                backend: "rocksdb",
                call: StoreCall::Get,
                detail: "io".to_string(),
            },
            "rocksdb get failed: io",
        ),
    ];
    for (error, text) in cases {
        assert_eq!(error.message(), text);
        assert_eq!(error.kind(), ErrorKind::IndexError);
    }
    let rows = IndexError::StartPointRows { rows: 3, expected: 2 };
    assert_eq!(
        rows.message(),
        "start_points matrix has 3 rows, but params.num_start_points is 2"
    );
    assert_eq!(rows.kind(), ErrorKind::AsyncIndexError);
    let mismatch = IndexError::StartPointMismatch { rows: 3, expected: 2 };
    assert_eq!(
        mismatch.message(),
        "expected start_points to contain `2` rows, instead it has 3"
    );
    assert_eq!(mismatch.kind(), ErrorKind::AsyncIndexError);
    assert_eq!(StoreCall::OpenTable.name(), "open_table");
    assert_eq!(StoreCall::Put.name(), "put");
    assert_eq!(StoreCall::Delete.name(), "delete");
}
