use kvgraph::delete_bitmap_serde::{delete_bitmap_from_bytes, delete_bitmap_to_bytes};
use kvgraph::table_delete_provider::TableDeleteProviderAsync;

fn make_provider(max_size: usize, deleted_ids: &[usize]) -> TableDeleteProviderAsync {
    let mut provider = TableDeleteProviderAsync::new(max_size);
    for &id in deleted_ids {
        provider.delete(id);
    }
    provider
}

#[test]
fn roundtrip() {
    let original = make_provider(50, &[0, 5, 20, 34, 48]);
    let bytes = delete_bitmap_to_bytes(&original);
    let loaded = delete_bitmap_from_bytes(&bytes, 50).unwrap();

    for i in 0..50 {
        assert_eq!(original.is_deleted(i), loaded.is_deleted(i), "mismatch at id {i}");
    }
}

#[test]
fn size_mismatch() {
    let bytes = vec![0u8; 4]; // 1 u32 word, but max_size=50 needs 2
    let result = delete_bitmap_from_bytes(&bytes, 50);
    assert!(result.is_err());
    assert_eq!(
        result.err().unwrap(),
        "Delete bitmap size mismatch: expected 2 u32 values, got 1"
    );
}

#[test]
fn not_multiple_of_4() {
    let bytes = vec![0u8; 9]; // 9 bytes is not a multiple of 4
    let result = delete_bitmap_from_bytes(&bytes, 50);
    assert!(result.is_err());
    assert_eq!(result.err().unwrap(), "Length of bytes is not a multiple of 4");
}

#[test]
fn known_fixture() {
    // max_size=3, ids 0 and 2 deleted: word = 0b101 = 5
    let expected_bytes: Vec<u8> = 5u32.to_le_bytes().to_vec();
    let provider = make_provider(3, &[0, 2]);
    let bytes = delete_bitmap_to_bytes(&provider);
    assert_eq!(bytes, expected_bytes);

    // Reverse direction
    let loaded = delete_bitmap_from_bytes(&expected_bytes, 3).unwrap();
    assert!(loaded.is_deleted(0));
    assert!(!loaded.is_deleted(1));
    assert!(loaded.is_deleted(2));
}

#[test]
fn rejects_padding_bits() {
    // max_size=3: only bits 0..2 are valid in one u32 word.
    // Bit 3 (padding) is to be rejected.
    let bad_word: u32 = 0b1000;
    let bytes = bad_word.to_le_bytes().to_vec();
    let result = delete_bitmap_from_bytes(&bytes, 3);
    assert!(result.is_err());
    let text = result.err().unwrap();
    assert!(text.contains("padding"));
    assert_eq!(
        text,
        "Non-zero padding bits in final word: 0x00000008 (mask 0xfffffff8)"
    );
}

#[test]
fn empty_bitmap() {
    let provider = make_provider(64, &[]);
    let bytes = delete_bitmap_to_bytes(&provider);
    assert_eq!(bytes, vec![0u8; 8]); // 2 u32 words, all zeros
    let loaded = delete_bitmap_from_bytes(&bytes, 64).unwrap();
    for i in 0..64 {
        assert!(!loaded.is_deleted(i));
    }
}

#[test]
fn exact_word_boundary() {
    // max_size=32: exactly 1 word, no padding bits
    let provider = make_provider(32, &[0, 15, 31]);
    let bytes = delete_bitmap_to_bytes(&provider);
    let loaded = delete_bitmap_from_bytes(&bytes, 32).unwrap();
    assert!(loaded.is_deleted(0));
    assert!(loaded.is_deleted(15));
    assert!(loaded.is_deleted(31));
    assert!(!loaded.is_deleted(1));
}

#[test]
fn no_marks_are_no_bytes() {
    let provider = make_provider(0, &[]);
    assert_eq!(delete_bitmap_to_bytes(&provider), Vec::<u8>::new());
    assert_eq!(delete_bitmap_from_bytes(&[], 0).unwrap().max_size(), 0);
    assert!(delete_bitmap_from_bytes(&[0], 0).is_err());
}

#[test]
fn the_word_count_is_looked_at_before_the_remainder() {
    // Five bytes hold one whole word, where two are needed.
    let text = delete_bitmap_from_bytes(&[0u8; 5], 50).err().unwrap();
    assert_eq!(text, "Delete bitmap size mismatch: expected 2 u32 values, got 1");
}

#[test]
fn bit_of_the_second_word() {
    let provider = make_provider(50, &[33]);
    assert_eq!(delete_bitmap_to_bytes(&provider), vec![0, 0, 0, 0, 2, 0, 0, 0]);
}

#[test]
fn saving_what_was_restored_gives_the_same_bytes() {
    let bytes = vec![0xff, 0x01, 0x80, 0x7e, 0x3f, 0, 0, 0];
    let loaded = delete_bitmap_from_bytes(&bytes, 38).unwrap();
    assert_eq!(delete_bitmap_to_bytes(&loaded), bytes);
}

#[test]
fn marks_are_set_unset_and_cleared() {
    let mut provider = make_provider(40, &[7, 39]);
    provider.undelete(7);
    assert!(!provider.is_deleted(7));
    assert!(provider.is_deleted(39));
    provider.clear();
    assert!(!provider.is_deleted(39));
    assert_eq!(provider.max_size(), 40);
}
