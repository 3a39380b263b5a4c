//! Byte images of the plain values that are stored.
//!
//! A stored value is a run of fixed-width words. `Word` names the element types that can
//! be stored and ties each of them to its byte image, which is in the byte order of the
//! machine; the casts between slices of words and byte slices are those of `bytemuck`.

use vstd::endian::Endian;
use vstd::prelude::*;

verus! {

/// The number of values that `width` bytes can hold.
pub open spec fn byte_range(width: nat) -> nat
    decreases width,
{
    if width == 0 {
        1
    } else {
        256 * byte_range((width - 1) as nat)
    }
}

/// The `width` low bytes of `value`, least significant first.
pub open spec fn le_bytes(value: nat, width: nat) -> Seq<u8>
    decreases width,
{
    if width == 0 {
        Seq::empty()
    } else {
        seq![(value % 256) as u8] + le_bytes(value / 256, (width - 1) as nat)
    }
}

/// The number whose bytes, least significant first, are `bytes`.
pub open spec fn le_value(bytes: Seq<u8>) -> nat
    decreases bytes.len(),
{
    if bytes.len() == 0 {
        0
    } else {
        bytes[0] as nat + 256 * le_value(bytes.drop_first())
    }
}

pub proof fn lemma_le_bytes_len(value: nat, width: nat)
    ensures
        le_bytes(value, width).len() == width,
    decreases width,
{
    if width > 0 {
        lemma_le_bytes_len(value / 256, (width - 1) as nat);
    }
}

/// A number that fits in `width` bytes is read back from its byte image.
pub proof fn lemma_le_value_of_bytes(value: nat, width: nat)
    requires
        value < byte_range(width),
    ensures
        le_value(le_bytes(value, width)) == value,
    decreases width,
{
    if width > 0 {
        let rest = le_bytes(value / 256, (width - 1) as nat);
        lemma_le_value_of_bytes(value / 256, (width - 1) as nat);
        assert(le_bytes(value, width).drop_first() =~= rest);
        assert(le_bytes(value, width)[0] as nat == value % 256);
    }
}

/// Every run of bytes is the image of the number that it spells.
pub proof fn lemma_le_bytes_of_value(bytes: Seq<u8>)
    ensures
        le_bytes(le_value(bytes), bytes.len()) == bytes,
        le_value(bytes) < byte_range(bytes.len()),
    decreases bytes.len(),
{
    if bytes.len() > 0 {
        let rest = bytes.drop_first();
        lemma_le_bytes_of_value(rest);
        let value = le_value(bytes);
        assert(value % 256 == bytes[0] as nat);
        assert(value / 256 == le_value(rest));
        assert(le_bytes(value, bytes.len()) =~= bytes);
    }
}

/// The `width` low bytes of `value`, in the byte order of the machine, for which vstd's
/// `endianness` stands.
pub open spec fn native_bytes(value: nat, width: nat) -> Seq<u8> {
    match vstd::endian::endianness() {
        Endian::Little => le_bytes(value, width),
        Endian::Big => le_bytes(value, width).reverse(),
    }
}

/// The number whose bytes, in the byte order of the machine, are `bytes`.
pub open spec fn native_value(bytes: Seq<u8>) -> nat {
    match vstd::endian::endianness() {
        Endian::Little => le_value(bytes),
        Endian::Big => le_value(bytes.reverse()),
    }
}

pub proof fn lemma_native_bytes_len(value: nat, width: nat)
    ensures
        native_bytes(value, width).len() == width,
{
    lemma_le_bytes_len(value, width);
}

/// A number that fits in `width` bytes is read back from its byte image.
pub proof fn lemma_native_value_of_bytes(value: nat, width: nat)
    requires
        value < byte_range(width),
    ensures
        native_value(native_bytes(value, width)) == value,
{
    lemma_le_value_of_bytes(value, width);
    assert(le_bytes(value, width).reverse().reverse() =~= le_bytes(value, width));
}

/// Every run of bytes is the image of the number that it spells.
pub proof fn lemma_native_bytes_of_value(bytes: Seq<u8>)
    ensures
        native_bytes(native_value(bytes), bytes.len()) == bytes,
        native_value(bytes) < byte_range(bytes.len()),
{
    lemma_le_bytes_of_value(bytes);
    lemma_le_bytes_of_value(bytes.reverse());
    assert(bytes.reverse().reverse() =~= bytes);
}

/// A plain element type of fixed width.
pub trait Word: Copy + Sized {
    /// The number of bytes of one word.
    spec fn width() -> nat;

    /// The bit pattern of the word, as an unsigned number.
    spec fn bits(self) -> nat;

    /// The word with the given bit pattern.
    spec fn of_bits(bits: nat) -> Self;

    proof fn lemma_width()
        ensures
            1 <= Self::width() <= 8,
    ;

    proof fn lemma_bits(self)
        ensures
            self.bits() < byte_range(Self::width()),
            Self::of_bits(self.bits()) == self,
    ;

    proof fn lemma_of_bits(bits: nat)
        requires
            bits < byte_range(Self::width()),
        ensures
            Self::of_bits(bits).bits() == bits,
    ;

    /// The number of bytes of one word.
    fn size() -> (size: usize)
        ensures
            size == Self::width(),
    ;
}

/// The byte image of one word.
pub open spec fn word_bytes<W: Word>(word: W) -> Seq<u8> {
    native_bytes(word.bits(), W::width())
}

/// The byte images of `words`, one after the other.
pub open spec fn words_bytes<W: Word>(words: Seq<W>) -> Seq<u8>
    decreases words.len(),
{
    if words.len() == 0 {
        Seq::empty()
    } else {
        words_bytes(words.drop_last()) + word_bytes(words.last())
    }
}

pub proof fn lemma_words_bytes_len<W: Word>(words: Seq<W>)
    ensures
        words_bytes(words).len() == words.len() * W::width(),
    decreases words.len(),
{
    if words.len() > 0 {
        lemma_words_bytes_len(words.drop_last());
        lemma_native_bytes_len(words.last().bits(), W::width());
        let n = (words.len() - 1) as int;
        let w = W::width() as int;
        assert(n * w + w == (n + 1) * w) by (nonlinear_arith);
    }
}

/// Equal byte images belong to equal words.
pub proof fn lemma_word_bytes_injective<W: Word>(a: W, b: W)
    requires
        word_bytes(a) == word_bytes(b),
    ensures
        a == b,
{
    a.lemma_bits();
    b.lemma_bits();
    lemma_native_value_of_bytes(a.bits(), W::width());
    lemma_native_value_of_bytes(b.bits(), W::width());
}

/// Equal byte images belong to equal runs of words: what was written is what is read.
pub proof fn lemma_words_bytes_injective<W: Word>(a: Seq<W>, b: Seq<W>)
    requires
        words_bytes(a) == words_bytes(b),
    ensures
        a == b,
    decreases a.len(),
{
    W::lemma_width();
    lemma_words_bytes_len(a);
    lemma_words_bytes_len(b);
    let w = W::width() as int;
    assert(a.len() == b.len()) by (nonlinear_arith)
        requires
            a.len() * w == b.len() * w,
            w >= 1,
    ;
    if a.len() > 0 {
        lemma_words_bytes_len(a.drop_last());
        lemma_words_bytes_len(b.drop_last());
        let cut = words_bytes(a.drop_last()).len() as int;
        let whole = words_bytes(a);
        assert(words_bytes(a.drop_last()) =~= whole.subrange(0, cut));
        assert(words_bytes(b.drop_last()) =~= whole.subrange(0, cut));
        assert(word_bytes(a.last()) =~= whole.subrange(cut, whole.len() as int));
        assert(word_bytes(b.last()) =~= whole.subrange(cut, whole.len() as int));
        lemma_words_bytes_injective(a.drop_last(), b.drop_last());
        lemma_word_bytes_injective(a.last(), b.last());
        assert(a =~= a.drop_last().push(a.last()));
        assert(b =~= b.drop_last().push(b.last()));
    }
}

/// The words that `bytes` spells. A last, incomplete word is left out at the front.
pub open spec fn words_of<W: Word>(bytes: Seq<u8>) -> Seq<W>
    decreases bytes.len(),
{
    if W::width() == 0 || bytes.len() < W::width() {
        Seq::empty()
    } else {
        let cut = bytes.len() - W::width();
        words_of::<W>(bytes.take(cut)).push(W::of_bits(native_value(bytes.skip(cut))))
    }
}

/// A run of whole words is the byte image of the words that it spells.
pub proof fn lemma_words_bytes_of<W: Word>(bytes: Seq<u8>)
    requires
        bytes.len() % W::width() == 0,
    ensures
        words_bytes(words_of::<W>(bytes)) == bytes,
        words_of::<W>(bytes).len() * W::width() == bytes.len(),
    decreases bytes.len(),
{
    W::lemma_width();
    let w = W::width() as int;
    if bytes.len() > 0 {
        let len = bytes.len() as int;
        assert(len >= w && (len - w) % w == 0) by (nonlinear_arith)
            requires
                len % w == 0,
                len > 0,
                w >= 1,
        {
            vstd::arithmetic::div_mod::lemma_fundamental_div_mod(len, w);
            vstd::arithmetic::div_mod::lemma_mod_sub_multiples_vanish(len, w);
        }
        let cut = len - w;
        let front = bytes.take(cut);
        let back = bytes.skip(cut);
        lemma_words_bytes_of::<W>(front);
        lemma_native_bytes_of_value(back);
        W::lemma_of_bits(native_value(back));
        let words = words_of::<W>(bytes);
        assert(words.drop_last() =~= words_of::<W>(front));
        assert(words_bytes(words) =~= bytes);
    } else {
        assert(words_bytes(words_of::<W>(bytes)) =~= bytes);
    }
    lemma_words_bytes_len(words_of::<W>(bytes));
}

/// What was written as words is read back as the same words.
pub proof fn lemma_words_of_bytes<W: Word>(words: Seq<W>)
    ensures
        words_of::<W>(words_bytes(words)) == words,
{
    W::lemma_width();
    lemma_words_bytes_len(words);
    let n = words.len() as int;
    let w = W::width() as int;
    assert((n * w) % w == 0) by {
        vstd::arithmetic::div_mod::lemma_mod_multiples_basic(n, w);
    }
    lemma_words_bytes_of::<W>(words_bytes(words));
    lemma_words_bytes_injective(words_of::<W>(words_bytes(words)), words);
}

/// A word whose slices can be cast to bytes and back.
pub trait Castable: Word {
    /// The byte image of `words`.
    fn to_bytes(words: &[Self]) -> (bytes: Vec<u8>)
        ensures
            bytes@ == words_bytes(words@),
    ;

    /// The words whose byte image is `bytes`.
    fn from_bytes(bytes: &[u8]) -> (words: Vec<Self>)
        requires
            bytes@.len() % Self::width() == 0,
        ensures
            words_bytes(words@) == bytes@,
    ;
}

/// The bytes of a number are its digits: the byte at place `k`, from the least significant one on,
/// is the number divided by 256 to the power `k`, less all higher digits.
pub proof fn law_bytes_are_digits(value: nat, width: nat, k: nat)
    requires
        k < width,
    ensures
        le_bytes(value, width).len() == width,
        le_bytes(value, width)[k as int] as int == value as int / byte_range(k) as int % 256,
    decreases width,
{
    lemma_le_bytes_len(value, width);
    lemma_byte_range_positive(k);
    if k == 0 {
        assert(byte_range(0) == 1);
        assert(value as int / 1 == value);
    } else {
        let j = (k - 1) as nat;
        law_bytes_are_digits(value / 256, (width - 1) as nat, j);
        lemma_byte_range_positive(j);
        vstd::arithmetic::div_mod::lemma_div_denominator(value as int, 256, byte_range(j) as int);
    }
}

proof fn lemma_byte_range_positive(width: nat)
    ensures
        byte_range(width) > 0,
    decreases width,
{
    if width > 0 {
        lemma_byte_range_positive((width - 1) as nat);
    }
}

/// The machine has its bytes in one of two orders: the least significant byte first, or last.
pub proof fn law_machine_order(value: nat, width: nat)
    ensures
        vstd::endian::endianness() is Little ==> native_bytes(value, width) == le_bytes(
            value,
            width,
        ),
        vstd::endian::endianness() is Big ==> forall|k: int|
            0 <= k < width ==> #[trigger] native_bytes(value, width)[k] == le_bytes(value, width)[width
                - 1 - k],
{
    lemma_le_bytes_len(value, width);
}

/// Words stand one after the other, each at the place that the words before it leave.
pub proof fn law_words_are_in_place<W: Word>(words: Seq<W>, k: int)
    requires
        0 <= k < words.len(),
    ensures
        words_bytes(words).len() == words.len() * W::width(),
        k * W::width() + W::width() <= words_bytes(words).len(),
        words_bytes(words).subrange(k * W::width(), k * W::width() + W::width()) == native_bytes(
            words[k].bits(),
            W::width(),
        ),
    decreases words.len(),
{
    lemma_words_bytes_len(words);
    let w = W::width() as int;
    let n = words.len() as int;
    let front = words.drop_last();
    lemma_words_bytes_len(front);
    lemma_native_bytes_len(words.last().bits(), W::width());
    assert(k * w + w <= n * w && (k < n - 1 ==> k * w + w <= (n - 1) * w)) by (nonlinear_arith)
        requires
            0 <= k < n,
            w >= 0,
    ;
    assert(0 <= k * w) by (nonlinear_arith)
        requires
            0 <= k,
            w >= 0,
    ;
    if k < n - 1 {
        law_words_are_in_place(front, k);
        assert(words_bytes(words).subrange(k * w, k * w + w) =~= words_bytes(front).subrange(
            k * w,
            k * w + w,
        ));
    } else {
        assert(words_bytes(words).subrange(k * w, k * w + w) =~= word_bytes(words.last()));
    }
}

} // verus!
