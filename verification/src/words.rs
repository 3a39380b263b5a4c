//! The element types that are stored, and the casts between their slices and bytes.
//!
//! The casts are made by `bytemuck`, which reinterprets memory: the byte image of a word is
//! in the byte order of the machine.

use crate::byte_image;
use crate::byte_image::{Castable, Word};
use vstd::prelude::*;
use vstd::slice::slice_to_vec;

verus! {

/// A 32-bit float, held by its bit pattern.
#[derive(Clone, Copy, Debug, PartialEq, Eq, Structural)]
pub struct F32Bits(pub u32);

/// A 16-bit float, held by its bit pattern.
#[derive(Clone, Copy, Debug, PartialEq, Eq, Structural)]
pub struct F16Bits(pub u16);

/// `bytemuck::cast_slice` from `i8` to `u8`: the bytes of the words in order, one byte per
/// word, a negative word `w` as the byte `256 + w`.
#[verifier::external_body]
fn i8s_to_bytes(words: &[i8]) -> (bytes: Vec<u8>)
    ensures
        bytes@ == byte_image::words_bytes(words@),
{
    bytemuck::cast_slice::<i8, u8>(words).to_vec()
}

/// `bytemuck::cast_slice` from `u16` to `u8`: the two bytes of each word, in the byte order of
/// the machine, word after word.
#[verifier::external_body]
fn u16s_to_bytes(words: &[u16]) -> (bytes: Vec<u8>)
    ensures
        bytes@ == byte_image::words_bytes(words@),
{
    bytemuck::cast_slice::<u16, u8>(words).to_vec()
}

/// `bytemuck::cast_slice` from `u32` to `u8`: the four bytes of each word, in the byte order of
/// the machine, word after word.
#[verifier::external_body]
fn u32s_to_bytes(words: &[u32]) -> (bytes: Vec<u8>)
    ensures
        bytes@ == byte_image::words_bytes(words@),
{
    bytemuck::cast_slice::<u32, u8>(words).to_vec()
}

/// `bytemuck::cast_slice` from `u64` to `u8`: the eight bytes of each word, in the byte order of
/// the machine, word after word.
#[verifier::external_body]
fn u64s_to_bytes(words: &[u64]) -> (bytes: Vec<u8>)
    ensures
        bytes@ == byte_image::words_bytes(words@),
{
    bytemuck::cast_slice::<u64, u8>(words).to_vec()
}

/// `bytemuck::bytes_of` a `usize`: its bytes, as many as the machine gives a `usize`, in the
/// byte order of the machine.
#[verifier::external_body]
pub(crate) fn usize_to_bytes(value: usize) -> (bytes: Vec<u8>)
    ensures
        bytes@ == byte_image::native_bytes(value as nat, usize::BITS as nat / 8),
{
    bytemuck::bytes_of::<usize>(&value).to_vec()
}

/// `bytemuck::cast_slice_mut` from `i8` to `u8`: after the copy into the cast slice, the byte
/// image of `words` is `bytes`. The copy needs one byte per word.
#[verifier::external_body]
fn read_i8s(bytes: &[u8], words: &mut [i8])
    requires
        bytes@.len() == old(words)@.len(),
    ensures
        final(words)@.len() == old(words)@.len(),
        byte_image::words_bytes(final(words)@) == bytes@,
{
    bytemuck::cast_slice_mut::<i8, u8>(words).copy_from_slice(bytes);
}

/// `bytemuck::cast_slice_mut` from `u16` to `u8`: after the copy into the cast slice, the byte
/// image of `words` is `bytes`. The copy needs two bytes per word.
#[verifier::external_body]
fn read_u16s(bytes: &[u8], words: &mut [u16])
    requires
        bytes@.len() == 2 * old(words)@.len(),
    ensures
        final(words)@.len() == old(words)@.len(),
        byte_image::words_bytes(final(words)@) == bytes@,
{
    bytemuck::cast_slice_mut::<u16, u8>(words).copy_from_slice(bytes);
}

/// `bytemuck::cast_slice_mut` from `u32` to `u8`: after the copy into the cast slice, the byte
/// image of `words` is `bytes`. The copy needs four bytes per word.
#[verifier::external_body]
fn read_u32s(bytes: &[u8], words: &mut [u32])
    requires
        bytes@.len() == 4 * old(words)@.len(),
    ensures
        final(words)@.len() == old(words)@.len(),
        byte_image::words_bytes(final(words)@) == bytes@,
{
    bytemuck::cast_slice_mut::<u32, u8>(words).copy_from_slice(bytes);
}

/// `bytemuck::cast_slice_mut` from `u64` to `u8`: after the copy into the cast slice, the byte
/// image of `words` is `bytes`. The copy needs eight bytes per word.
#[verifier::external_body]
fn read_u64s(bytes: &[u8], words: &mut [u64])
    requires
        bytes@.len() == 8 * old(words)@.len(),
    ensures
        final(words)@.len() == old(words)@.len(),
        byte_image::words_bytes(final(words)@) == bytes@,
{
    bytemuck::cast_slice_mut::<u64, u8>(words).copy_from_slice(bytes);
}

proof fn lemma_byte_ranges()
    ensures
        byte_image::byte_range(1) == 0x100,
        byte_image::byte_range(2) == 0x1_0000,
        byte_image::byte_range(4) == 0x1_0000_0000,
        byte_image::byte_range(8) == 0x1_0000_0000_0000_0000,
{
    reveal_with_fuel(byte_image::byte_range, 9);
}

impl Word for u8 {
    open spec fn width() -> nat {
        1
    }

    open spec fn bits(self) -> nat {
        self as nat
    }

    open spec fn of_bits(bits: nat) -> Self {
        bits as u8
    }

    proof fn lemma_width() {
    }

    proof fn lemma_bits(self) {
        lemma_byte_ranges();
    }

    proof fn lemma_of_bits(bits: nat) {
        lemma_byte_ranges();
    }

    fn size() -> (size: usize) {
        1
    }
}

impl Word for i8 {
    open spec fn width() -> nat {
        1
    }

    open spec fn bits(self) -> nat {
        if self >= 0 {
            self as nat
        } else {
            (self + 256) as nat
        }
    }

    open spec fn of_bits(bits: nat) -> Self {
        if bits < 128 {
            bits as i8
        } else {
            (bits - 256) as i8
        }
    }

    proof fn lemma_width() {
    }

    proof fn lemma_bits(self) {
        lemma_byte_ranges();
    }

    proof fn lemma_of_bits(bits: nat) {
        lemma_byte_ranges();
    }

    fn size() -> (size: usize) {
        1
    }
}

impl Word for u16 {
    open spec fn width() -> nat {
        2
    }

    open spec fn bits(self) -> nat {
        self as nat
    }

    open spec fn of_bits(bits: nat) -> Self {
        bits as u16
    }

    proof fn lemma_width() {
    }

    proof fn lemma_bits(self) {
        lemma_byte_ranges();
    }

    proof fn lemma_of_bits(bits: nat) {
        lemma_byte_ranges();
    }

    fn size() -> (size: usize) {
        2
    }
}

impl Word for u32 {
    open spec fn width() -> nat {
        4
    }

    open spec fn bits(self) -> nat {
        self as nat
    }

    open spec fn of_bits(bits: nat) -> Self {
        bits as u32
    }

    proof fn lemma_width() {
    }

    proof fn lemma_bits(self) {
        lemma_byte_ranges();
    }

    proof fn lemma_of_bits(bits: nat) {
        lemma_byte_ranges();
    }

    fn size() -> (size: usize) {
        4
    }
}

impl Word for u64 {
    open spec fn width() -> nat {
        8
    }

    open spec fn bits(self) -> nat {
        self as nat
    }

    open spec fn of_bits(bits: nat) -> Self {
        bits as u64
    }

    proof fn lemma_width() {
    }

    proof fn lemma_bits(self) {
        lemma_byte_ranges();
    }

    proof fn lemma_of_bits(bits: nat) {
        lemma_byte_ranges();
    }

    fn size() -> (size: usize) {
        8
    }
}

impl Word for F16Bits {
    open spec fn width() -> nat {
        2
    }

    open spec fn bits(self) -> nat {
        self.0 as nat
    }

    open spec fn of_bits(bits: nat) -> Self {
        F16Bits(bits as u16)
    }

    proof fn lemma_width() {
    }

    proof fn lemma_bits(self) {
        lemma_byte_ranges();
    }

    proof fn lemma_of_bits(bits: nat) {
        lemma_byte_ranges();
    }

    fn size() -> (size: usize) {
        2
    }
}

impl Word for F32Bits {
    open spec fn width() -> nat {
        4
    }

    open spec fn bits(self) -> nat {
        self.0 as nat
    }

    open spec fn of_bits(bits: nat) -> Self {
        F32Bits(bits as u32)
    }

    proof fn lemma_width() {
    }

    proof fn lemma_bits(self) {
        lemma_byte_ranges();
    }

    proof fn lemma_of_bits(bits: nat) {
        lemma_byte_ranges();
    }

    fn size() -> (size: usize) {
        4
    }
}

/// A run of bytes is its own byte image.
proof fn lemma_bytes_are_words(bytes: Seq<u8>)
    ensures
        byte_image::words_bytes(bytes) == bytes,
    decreases bytes.len(),
{
    if bytes.len() > 0 {
        lemma_bytes_are_words(bytes.drop_last());
        let last = bytes.last();
        assert(byte_image::native_bytes(last as nat, 1) =~= seq![last]) by {
            reveal_with_fuel(byte_image::le_bytes, 2);
        }
        assert(byte_image::words_bytes(bytes) =~= bytes);
    }
}

/// Words of equal width and equal bit patterns have equal byte images.
proof fn lemma_same_bits_same_bytes<A: Word, B: Word>(a: Seq<A>, b: Seq<B>)
    requires
        A::width() == B::width(),
        a.len() == b.len(),
        forall|i: int| 0 <= i < a.len() ==> (#[trigger] a[i]).bits() == b[i].bits(),
    ensures
        byte_image::words_bytes(a) == byte_image::words_bytes(b),
    decreases a.len(),
{
    if a.len() > 0 {
        assert(a[a.len() - 1].bits() == b[b.len() - 1].bits());
        assert forall|i: int| 0 <= i < a.drop_last().len() implies (#[trigger] a.drop_last()[i]).bits()
            == b.drop_last()[i].bits() by {
            assert(a[i].bits() == b[i].bits());
        }
        lemma_same_bits_same_bytes(a.drop_last(), b.drop_last());
    }
}

impl Castable for u8 {
    fn to_bytes(words: &[Self]) -> (bytes: Vec<u8>) {
        proof {
            lemma_bytes_are_words(words@);
        }
        slice_to_vec(words)
    }

    fn from_bytes(bytes: &[u8]) -> (words: Vec<Self>) {
        proof {
            lemma_bytes_are_words(bytes@);
        }
        slice_to_vec(bytes)
    }
}

impl Castable for i8 {
    fn to_bytes(words: &[Self]) -> (bytes: Vec<u8>) {
        i8s_to_bytes(words)
    }

    fn from_bytes(bytes: &[u8]) -> (words: Vec<Self>) {
        let mut words: Vec<i8> = vec![0;bytes.len()];
        read_i8s(bytes, words.as_mut_slice());
        words
    }
}

impl Castable for u16 {
    fn to_bytes(words: &[Self]) -> (bytes: Vec<u8>) {
        u16s_to_bytes(words)
    }

    fn from_bytes(bytes: &[u8]) -> (words: Vec<Self>) {
        let mut words: Vec<u16> = vec![0;bytes.len() / 2];
        read_u16s(bytes, words.as_mut_slice());
        words
    }
}

impl Castable for u32 {
    fn to_bytes(words: &[Self]) -> (bytes: Vec<u8>) {
        u32s_to_bytes(words)
    }

    fn from_bytes(bytes: &[u8]) -> (words: Vec<Self>) {
        let mut words: Vec<u32> = vec![0;bytes.len() / 4];
        read_u32s(bytes, words.as_mut_slice());
        words
    }
}

impl Castable for u64 {
    fn to_bytes(words: &[Self]) -> (bytes: Vec<u8>) {
        u64s_to_bytes(words)
    }

    fn from_bytes(bytes: &[u8]) -> (words: Vec<Self>) {
        let mut words: Vec<u64> = vec![0;bytes.len() / 8];
        read_u64s(bytes, words.as_mut_slice());
        words
    }
}

impl Castable for F16Bits {
    fn to_bytes(words: &[Self]) -> (bytes: Vec<u8>) {
        let mut patterns: Vec<u16> = Vec::new();
        for k in 0..words.len()
            invariant
                patterns@.len() == k,
                forall|i: int| 0 <= i < k ==> #[trigger] patterns@[i] == words@[i].0,
        {
            patterns.push(words[k].0);
        }
        proof {
            lemma_same_bits_same_bytes(patterns@, words@);
        }
        u16s_to_bytes(patterns.as_slice())
    }

    fn from_bytes(bytes: &[u8]) -> (words: Vec<Self>) {
        let patterns = u16::from_bytes(bytes);
        let mut words: Vec<F16Bits> = Vec::new();
        for k in 0..patterns.len()
            invariant
                words@.len() == k,
                forall|i: int| 0 <= i < k ==> (#[trigger] words@[i]).0 == patterns@[i],
        {
            words.push(F16Bits(patterns[k]));
        }
        proof {
            lemma_same_bits_same_bytes(words@, patterns@);
        }
        words
    }
}

impl Castable for F32Bits {
    fn to_bytes(words: &[Self]) -> (bytes: Vec<u8>) {
        let mut patterns: Vec<u32> = Vec::new();
        for k in 0..words.len()
            invariant
                patterns@.len() == k,
                forall|i: int| 0 <= i < k ==> #[trigger] patterns@[i] == words@[i].0,
        {
            patterns.push(words[k].0);
        }
        proof {
            lemma_same_bits_same_bytes(patterns@, words@);
        }
        u32s_to_bytes(patterns.as_slice())
    }

    fn from_bytes(bytes: &[u8]) -> (words: Vec<Self>) {
        let patterns = u32::from_bytes(bytes);
        let mut words: Vec<F32Bits> = Vec::new();
        for k in 0..patterns.len()
            invariant
                words@.len() == k,
                forall|i: int| 0 <= i < k ==> (#[trigger] words@[i]).0 == patterns@[i],
        {
            words.push(F32Bits(patterns[k]));
        }
        proof {
            lemma_same_bits_same_bytes(words@, patterns@);
        }
        words
    }
}

} // verus!
