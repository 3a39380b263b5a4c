use kvgraph::bits::{clear_bit, get_bit, high_mask_word, set_bit};
use kvgraph::byte_image::{Castable, Word};
use kvgraph::store::index_key;
use kvgraph::text::{decimal_text, hex_text};
use kvgraph::vector_id::VectorId;
use kvgraph::words::{F16Bits, F32Bits};

fn round_trip<T: Castable + Copy + PartialEq + std::fmt::Debug>(words: &[T], bytes: &[u8]) {
    assert_eq!(T::to_bytes(words), bytes);
    assert_eq!(T::from_bytes(bytes), words);
}

#[test]
fn words_as_bytes() {
    round_trip::<u8>(&[1, 255], &[1, 255]);
    round_trip::<i8>(&[-1, -128, 127], &[255, 128, 127]);
    let shorts = [0x0102u16.to_ne_bytes(), 0xfffeu16.to_ne_bytes()].concat();
    round_trip::<u16>(&[0x0102, 0xfffe], &shorts);
    round_trip::<u32>(&[0x01020304], &0x01020304u32.to_ne_bytes());
    let longs = [0x0102030405060708u64.to_ne_bytes(), 9u64.to_ne_bytes()].concat();
    round_trip::<u64>(&[0x0102030405060708, 9], &longs);
    round_trip::<F32Bits>(&[F32Bits(1.0f32.to_bits())], &1.0f32.to_ne_bytes());
    round_trip::<F16Bits>(&[F16Bits(0x3c00)], &0x3c00u16.to_ne_bytes());
    round_trip::<u32>(&[], &[]);
    round_trip::<u64>(&[], &[]);
}

#[test]
fn sizes_of_words() {
    assert_eq!(<u8 as Word>::size(), 1);
    assert_eq!(<i8 as Word>::size(), 1);
    assert_eq!(<u16 as Word>::size(), 2);
    assert_eq!(<u32 as Word>::size(), 4);
    assert_eq!(<u64 as Word>::size(), 8);
    assert_eq!(<F32Bits as Word>::size(), 4);
    assert_eq!(<F16Bits as Word>::size(), 2);
}

#[test]
fn ids_of_numbers() {
    assert_eq!(u32::try_from_number(7), Some(7));
    assert_eq!(u32::try_from_number(u32::MAX as usize), Some(u32::MAX));
    assert_eq!(u32::try_from_number(u32::MAX as usize + 1), None);
    assert_eq!(u64::try_from_number(u32::MAX as usize + 1), Some(4294967296));
    assert_eq!(VectorId::number(9u32), 9);
    assert_eq!(VectorId::number(9u64), 9);
}

#[test]
fn keys_of_vectors() {
    assert_eq!(index_key(0), 0usize.to_ne_bytes());
    assert_eq!(index_key(258), 258usize.to_ne_bytes());
    assert_eq!(index_key(usize::MAX), usize::MAX.to_ne_bytes());
}

#[test]
fn numbers_as_text() {
    assert_eq!(decimal_text(0), "0");
    assert_eq!(decimal_text(1050), "1050");
    assert_eq!(decimal_text(usize::MAX), format!("{}", usize::MAX));
    assert_eq!(hex_text(0, 8), "00000000");
    assert_eq!(hex_text(0xdeadbeef, 8), "deadbeef");
    assert_eq!(hex_text(0x1f, 8), "0000001f");
}

#[test]
fn single_bits() {
    assert_eq!(set_bit(0, 31), 0x8000_0000);
    assert_eq!(clear_bit(0xff, 3), 0xf7);
    assert!(get_bit(0b100, 2));
    assert!(!get_bit(0b100, 1));
    assert_eq!(high_mask_word(3), 0xffff_fff8);
    assert_eq!(high_mask_word(31), 0x8000_0000);
}
