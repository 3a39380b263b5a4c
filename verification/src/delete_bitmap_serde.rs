//! The saved form of the marks of deleted vectors.
//!
//! The marks are saved as a sequence of little-endian `u32` words of 32 marks each. Bit `b` of
//! word `w` is the mark of the vector with id `w * 32 + b`. The number of words is
//! `ceil(max_size / 32)`, and the bits beyond `max_size` are zero.

use crate::bits;
use crate::byte_image;
use crate::table_delete_provider;
use crate::table_delete_provider::TableDeleteProviderAsync;
use crate::text;
use vstd::arithmetic::power2;
use vstd::prelude::*;
use vstd::string::StringExecFns;

verus! {

/// The whole words in `bytes`, each of four bytes, least significant first.
pub open spec fn le_words(bytes: Seq<u8>) -> Seq<u32> {
    Seq::new(bytes.len() / 4, |k: int| le_word(bytes, k))
}

/// The `k`-th word in `bytes`.
pub open spec fn le_word(bytes: Seq<u8>, k: int) -> u32 {
    byte_image::le_value(bytes.subrange(4 * k, 4 * k + 4)) as u32
}

/// Bit `b` of word `w` of the saved form of `marks`.
pub open spec fn saved_bit(marks: Seq<bool>, w: int, b: int) -> bool {
    w * 32 + b < marks.len() && marks[w * 32 + b]
}

/// `words` are the words of the saved form of `marks`.
pub open spec fn words_hold(words: Seq<u32>, marks: Seq<bool>) -> bool {
    &&& words.len() == table_delete_provider::word_count(marks.len())
    &&& forall|w: int, b: nat|
        0 <= w < words.len() && b < 32 ==> #[trigger] bits::bit(words[w], b) == saved_bit(
            marks,
            w,
            b as int,
        )
}

/// `bytes` is the saved form of `marks`.
pub open spec fn is_saved_form(bytes: Seq<u8>, marks: Seq<bool>) -> bool {
    &&& bytes.len() % 4 == 0
    &&& words_hold(le_words(bytes), marks)
}

/// What is wrong with bytes that are to be the saved form of some marks.
pub enum BitmapFault {
    /// There are not as many words as there are to be.
    WordCount { expected: nat, actual: nat },
    /// There are bytes behind the last whole word.
    Remainder,
    /// A bit beyond the last mark is set.
    Padding { last_word: u32, mask: u32 },
}

/// What is wrong with `bytes` as the saved form of `max_size` marks, if anything is.
pub open spec fn bitmap_fault(bytes: Seq<u8>, max_size: nat) -> Option<BitmapFault> {
    let expected = table_delete_provider::word_count(max_size);
    let used = max_size % 32;
    let last_word = le_words(bytes).last();
    if bytes.len() / 4 != expected {
        Some(BitmapFault::WordCount { expected, actual: bytes.len() / 4 })
    } else if bytes.len() % 4 != 0 {
        Some(BitmapFault::Remainder)
    } else if used != 0 && exists|b: nat| used <= b < 32 && #[trigger] bits::bit(last_word, b) {
        Some(BitmapFault::Padding { last_word, mask: bits::high_mask(used) })
    } else {
        None
    }
}

impl BitmapFault {
    /// The text of the fault.
    pub open spec fn text(self) -> Seq<char> {
        match self {
            BitmapFault::WordCount { expected, actual } =>
                "Delete bitmap size mismatch: expected "@ + text::decimal(expected)
                + " u32 values, got "@ + text::decimal(actual),
            BitmapFault::Remainder => "Length of bytes is not a multiple of 4"@,
            BitmapFault::Padding { last_word, mask } =>
                "Non-zero padding bits in final word: 0x"@ + text::hex(last_word as nat, 8)
                + " (mask 0x"@ + text::hex(mask as nat, 8) + ")"@,
        }
    }
}

/// The marks of word `slot`, as a word.
fn saved_word(provider: &TableDeleteProviderAsync, slot: usize) -> (word: u32)
    requires
        slot < table_delete_provider::word_count(provider@.len()),
    ensures
        forall|b: nat|
            b < 32 ==> #[trigger] bits::bit(word, b) == saved_bit(
                provider@,
                slot as int,
                b as int,
            ),
{
    let max_size = provider.max_size();
    let first = slot * 32;
    let limit: usize = if max_size - first < 32 {
        max_size - first
    } else {
        32
    };
    let mut word: u32 = 0;
    let mut bit: usize = 0;
    proof {
        assert forall|b: nat| b < 32 implies !(#[trigger] bits::bit(word, b)) by {
            bits::lemma_zero_word(b);
        }
    }
    while bit < limit
        invariant
            bit <= limit <= 32,
            first + limit <= max_size == provider@.len(),
            forall|b: nat|
                b < 32 ==> #[trigger] bits::bit(word, b) == (b < bit && provider@[first + b]),
        decreases limit - bit,
    {
        if provider.is_deleted(first + bit) {
            word = bits::set_bit(word, bit as u32);
        }
        bit += 1;
    }
    word
}

/// A word is the number that its four bytes spell, and fits its type.
proof fn lemma_word_value(bytes: Seq<u8>)
    requires
        bytes.len() == 4,
    ensures
        byte_image::le_value(bytes) == bytes[0] + 0x100 * bytes[1] + 0x1_0000 * bytes[2]
            + 0x100_0000 * bytes[3],
{
    let b1 = bytes.drop_first();
    let b2 = b1.drop_first();
    let b3 = b2.drop_first();
    reveal_with_fuel(byte_image::le_value, 5);
    assert(b1[0] == bytes[1] && b2[0] == bytes[2] && b3[0] == bytes[3]);
    assert(b3.drop_first().len() == 0);
}

/// Appends the four bytes of a word, least significant first.
fn push_word(bytes: &mut Vec<u8>, word: u32)
    ensures
        final(bytes)@.len() == old(bytes)@.len() + 4,
        final(bytes)@.take(old(bytes)@.len() as int) == old(bytes)@,
        byte_image::le_value(final(bytes)@.skip(old(bytes)@.len() as int)) == word,
{
    bytes.push((word % 0x100) as u8);
    bytes.push((word / 0x100 % 0x100) as u8);
    bytes.push((word / 0x1_0000 % 0x100) as u8);
    bytes.push((word / 0x100_0000) as u8);
    proof {
        lemma_word_value(bytes@.skip(old(bytes)@.len() as int));
        assert(bytes@.take(old(bytes)@.len() as int) =~= old(bytes)@);
    }
}

/// The `k`-th word in `bytes`.
fn word_at(bytes: &[u8], k: usize) -> (word: u32)
    requires
        4 * k + 4 <= bytes@.len(),
    ensures
        word == le_word(bytes@, k as int),
        word == byte_image::le_value(bytes@.subrange(4 * k, 4 * k + 4)),
{
    proof {
        lemma_word_value(bytes@.subrange(4 * k, 4 * k + 4));
    }
    assert(4 * k + 4 <= bytes.len());
    let at = 4 * k;
    bytes[at] as u32 + 0x100 * bytes[at + 1] as u32 + 0x1_0000 * bytes[at + 2] as u32
        + 0x100_0000 * bytes[at + 3] as u32
}

/// Saves the marks as bytes.
pub fn delete_bitmap_to_bytes(provider: &TableDeleteProviderAsync) -> (bytes: Vec<u8>)
    ensures
        is_saved_form(bytes@, provider@),
{
    let num_words = table_delete_provider::words_for(provider.max_size());
    let mut bytes: Vec<u8> = Vec::new();
    let mut slot: usize = 0;
    while slot < num_words
        invariant
            slot <= num_words == table_delete_provider::word_count(provider@.len()),
            bytes@.len() == 4 * slot,
            forall|w: int, b: nat|
                0 <= w < slot && b < 32 ==> #[trigger] bits::bit(le_word(bytes@, w), b)
                    == saved_bit(provider@, w, b as int),
        decreases num_words - slot,
    {
        let word = saved_word(provider, slot);
        let ghost before = bytes@;
        push_word(&mut bytes, word);
        proof {
            assert(bytes@.subrange(4 * slot, 4 * slot + 4) =~= bytes@.skip(4 * slot));
            assert forall|w: int| 0 <= w < slot implies #[trigger] le_word(bytes@, w) == le_word(
                before,
                w,
            ) by {
                assert(bytes@.subrange(4 * w, 4 * w + 4) =~= before.subrange(4 * w, 4 * w + 4)) by {
                    assert forall|i: int| 0 <= i < before.len() implies bytes@[i] == before[i] by {
                        assert(bytes@.take(before.len() as int)[i] == before[i]);
                    }
                }
            }
        }
        slot += 1;
    }
    bytes
}

/// Restores the marks of `max_size` vectors from their saved form.
///
/// It fails where the number of bytes is not that of the saved form, and where a bit beyond
/// `max_size` is set in the last word.
pub fn delete_bitmap_from_bytes(bytes: &[u8], max_size: usize) -> (provider: Result<
    TableDeleteProviderAsync,
    String,
>)
    ensures
        match provider {
            Ok(p) => {
                &&& bitmap_fault(bytes@, max_size as nat) is None
                &&& p@.len() == max_size
                &&& is_saved_form(bytes@, p@)
            },
            Err(e) => bitmap_fault(bytes@, max_size as nat) matches Some(fault) && e@
                == fault.text(),
        },
{
    let expected_words = table_delete_provider::words_for(max_size);
    let actual_words = bytes.len() / 4;
    if actual_words != expected_words {
        return Err(
            "Delete bitmap size mismatch: expected ".to_owned().concat(
                text::decimal_text(expected_words).as_str(),
            ).concat(" u32 values, got ").concat(text::decimal_text(actual_words).as_str()),
        );
    }
    if bytes.len() % 4 != 0 {
        return Err("Length of bytes is not a multiple of 4".to_owned());
    }
    let ghost words = le_words(bytes@);
    let used = (max_size % 32) as u32;
    if used != 0 {
        let last_word = word_at(bytes, expected_words - 1);
        let padding_mask = bits::high_mask_word(used);
        if last_word & padding_mask != 0 {
            return Err(
                "Non-zero padding bits in final word: 0x".to_owned().concat(
                    text::hex_text(last_word, 8).as_str(),
                ).concat(" (mask 0x").concat(text::hex_text(padding_mask, 8).as_str()).concat(")"),
            );
        }
    }
    let mut provider = TableDeleteProviderAsync::new(max_size);
    let mut id: usize = 0;
    while id < max_size
        invariant
            id <= max_size == provider@.len(),
            words == le_words(bytes@),
            bytes@.len() % 4 == 0,
            words.len() == table_delete_provider::word_count(max_size as nat),
            forall|i: int|
                0 <= i < max_size ==> #[trigger] provider@[i] == (i < id && bits::bit(
                    words[i / 32],
                    (i % 32) as nat,
                )),
        decreases max_size - id,
    {
        if bits::get_bit(word_at(bytes, id / 32), (id % 32) as u32) {
            provider.delete(id);
        }
        id += 1;
    }
    proof {
        assert forall|w: int, b: nat| 0 <= w < words.len() && b < 32 implies #[trigger] bits::bit(
            words[w],
            b,
        ) == saved_bit(provider@, w, b as int) by {
            let i = w * 32 + b;
            if i < max_size {
                assert(i / 32 == w && i % 32 == b);
                assert(provider@[i] == bits::bit(words[w], b));
            } else {
                assert(w == words.len() - 1 && used <= b);
            }
        }
    }
    Ok(provider)
}

/// What was saved is restored: the saved form of some marks is accepted, and it is the saved
/// form of no other marks of that number.
pub proof fn law_saved_marks_are_restored(bytes: Seq<u8>, marks: Seq<bool>)
    requires
        is_saved_form(bytes, marks),
    ensures
        bitmap_fault(bytes, marks.len()) is None,
        forall|others: Seq<bool>|
            others.len() == marks.len() && #[trigger] is_saved_form(bytes, others) ==> others
                == marks,
{
    let words = le_words(bytes);
    let used = marks.len() % 32;
    if used != 0 {
        let last = words.len() - 1;
        assert forall|b: nat| used <= b < 32 implies !(#[trigger] bits::bit(words.last(), b)) by {
            assert(bits::bit(words[last], b) == saved_bit(marks, last, b as int));
        }
    }
    assert forall|others: Seq<bool>|
        others.len() == marks.len() && #[trigger] is_saved_form(bytes, others) implies others
        == marks by {
        assert forall|i: int| 0 <= i < marks.len() implies others[i] == marks[i] by {
            let w = i / 32;
            let b = (i % 32) as nat;
            assert(w * 32 + b == i);
            assert(bits::bit(words[w], b) == saved_bit(marks, w, b as int));
            assert(bits::bit(words[w], b) == saved_bit(others, w, b as int));
        }
        assert(others =~= marks);
    }
}

/// Marks have one saved form: saving what was restored gives the same bytes.
pub proof fn law_saved_form_is_unique(a: Seq<u8>, b: Seq<u8>, marks: Seq<bool>)
    requires
        is_saved_form(a, marks),
        is_saved_form(b, marks),
    ensures
        a == b,
{
    let x = le_words(a);
    let y = le_words(b);
    assert forall|w: int| 0 <= w < x.len() implies x[w] == y[w] by {
        assert forall|c: nat| c < 32 implies #[trigger] bits::bit(x[w], c) == bits::bit(
            y[w],
            c,
        ) by {
            assert(bits::bit(y[w], c) == saved_bit(marks, w, c as int));
        }
        bits::lemma_same_bits(x[w], y[w]);
    }
    assert(a.len() == b.len());
    assert forall|i: int| 0 <= i < a.len() implies a[i] == b[i] by {
        let w = i / 4;
        assert(x[w] == y[w]);
        let p = a.subrange(4 * w, 4 * w + 4);
        let q = b.subrange(4 * w, 4 * w + 4);
        lemma_word_value(p);
        lemma_word_value(q);
        byte_image::lemma_le_bytes_of_value(p);
        byte_image::lemma_le_bytes_of_value(q);
        assert(p == q);
        assert(a[i] == p[i - 4 * w] && b[i] == q[i - 4 * w]);
    }
    assert(a =~= b);
}

/// A bit of a word is a bit of one of its bytes.
proof fn lemma_bit_of_byte(bytes: Seq<u8>, b: nat)
    requires
        bytes.len() == 4,
        b < 32,
    ensures
        bits::bit(byte_image::le_value(bytes) as u32, b) <==> bits::bit(
            bytes[b as int / 8] as u32,
            b % 8,
        ),
{
    lemma_word_value(bytes);
    let b0 = bytes[0] as u32;
    let b1 = bytes[1] as u32;
    let b2 = bytes[2] as u32;
    let b3 = bytes[3] as u32;
    let word = byte_image::le_value(bytes) as u32;
    let k = b as u32;
    let low = (b % 8) as u32;
    assert(low == k % 8);
    if b < 8 {
        assert((word >> k) & 1 == (b0 >> low) & 1) by (bit_vector)
            requires
                word == b0 + 0x100 * b1 + 0x1_0000 * b2 + 0x100_0000 * b3,
                b0 < 256 && b1 < 256 && b2 < 256 && b3 < 256,
                k < 8,
                low == k % 8,
        ;
    } else if b < 16 {
        assert((word >> k) & 1 == (b1 >> low) & 1) by (bit_vector)
            requires
                word == b0 + 0x100 * b1 + 0x1_0000 * b2 + 0x100_0000 * b3,
                b0 < 256 && b1 < 256 && b2 < 256 && b3 < 256,
                8 <= k < 16,
                low == k % 8,
        ;
    } else if b < 24 {
        assert((word >> k) & 1 == (b2 >> low) & 1) by (bit_vector)
            requires
                word == b0 + 0x100 * b1 + 0x1_0000 * b2 + 0x100_0000 * b3,
                b0 < 256 && b1 < 256 && b2 < 256 && b3 < 256,
                16 <= k < 24,
                low == k % 8,
        ;
    } else {
        assert((word >> k) & 1 == (b3 >> low) & 1) by (bit_vector)
            requires
                word == b0 + 0x100 * b1 + 0x1_0000 * b2 + 0x100_0000 * b3,
                b0 < 256 && b1 < 256 && b2 < 256 && b3 < 256,
                24 <= k < 32,
                low == k % 8,
        ;
    }
}

/// Where the mark of a vector is in the saved form: the vector with id `i` is deleted if and only
/// if byte `i / 8`, divided by 2 to the power `i % 8`, is odd. The saved form has no more bytes
/// than its words of 32 marks take, and nothing is set in it behind the last mark.
pub proof fn law_place_of_a_mark(bytes: Seq<u8>, marks: Seq<bool>)
    requires
        is_saved_form(bytes, marks),
    ensures
        bytes.len() % 4 == 0,
        8 * bytes.len() >= marks.len(),
        8 * bytes.len() < marks.len() + 32,
        forall|i: int|
            #![trigger bytes[i / 8]]
            0 <= i < 8 * bytes.len() ==> (bytes[i / 8] as int / power2::pow2(
                (i % 8) as nat,
            ) as int % 2 == 1 <==> i < marks.len() && marks[i]),
{
    let words = le_words(bytes);
    assert forall|i: int|
        #![trigger bytes[i / 8]]
        0 <= i < 8 * bytes.len() implies (bytes[i / 8] as int / power2::pow2(
        (i % 8) as nat,
    ) as int % 2 == 1 <==> i < marks.len() && marks[i]) by {
        let w = i / 32;
        let b = (i % 32) as nat;
        let chunk = bytes.subrange(4 * w, 4 * w + 4);
        assert(bits::bit(words[w], b) == saved_bit(marks, w, b as int));
        assert(w * 32 + b == i);
        lemma_bit_of_byte(chunk, b);
        assert(chunk[b as int / 8] == bytes[i / 8]);
        assert(b % 8 == i % 8);
        bits::law_bits_are_digits(bytes[i / 8] as u32, (i % 8) as nat);
    }
}

/// What is accepted is exactly what is the saved form of some marks.
pub proof fn law_only_saved_forms_are_accepted(bytes: Seq<u8>, max_size: nat)
    ensures
        bitmap_fault(bytes, max_size) is None <==> exists|marks: Seq<bool>|
            marks.len() == max_size && #[trigger] is_saved_form(bytes, marks),
{
    if bitmap_fault(bytes, max_size) is None {
        let words = le_words(bytes);
        let marks = Seq::new(
            max_size,
            |i: int| bits::bit(words[i / 32], (i % 32) as nat),
        );
        assert forall|w: int, b: nat| 0 <= w < words.len() && b < 32 implies #[trigger] bits::bit(
            words[w],
            b,
        ) == saved_bit(marks, w, b as int) by {
            let i = w * 32 + b;
            if i < max_size {
                assert(i / 32 == w && i % 32 == b);
            } else {
                assert(w == words.len() - 1 && max_size % 32 <= b);
                assert(words.last() == words[w]);
            }
        }
        assert(is_saved_form(bytes, marks));
    }
    if exists|marks: Seq<bool>| marks.len() == max_size && #[trigger] is_saved_form(bytes, marks) {
        let marks = choose|marks: Seq<bool>|
            marks.len() == max_size && #[trigger] is_saved_form(bytes, marks);
        law_saved_marks_are_restored(bytes, marks);
    }
}

/// Why bytes are not accepted: a wrong number of whole words before bytes behind them, and these
/// before a bit that is set behind the last mark. The text that is reported tells the word that
/// was found and the bits that may not be set in it.
pub proof fn law_why_bytes_are_refused(bytes: Seq<u8>, max_size: nat)
    ensures
        match bitmap_fault(bytes, max_size) {
            None => true,
            Some(BitmapFault::WordCount { expected, actual }) => {
                &&& 4 * actual <= bytes.len() < 4 * actual + 4
                &&& max_size <= 32 * expected < max_size + 32
                &&& expected != actual
            },
            Some(BitmapFault::Remainder) => {
                &&& bytes.len() % 4 != 0
                &&& max_size <= 32 * (bytes.len() / 4) < max_size + 32
            },
            Some(BitmapFault::Padding { last_word, mask }) => {
                &&& bytes.len() % 4 == 0
                &&& max_size <= 8 * bytes.len() < max_size + 32
                &&& bytes.len() >= 4
                &&& last_word == byte_image::le_value(bytes.skip(bytes.len() - 4))
                &&& forall|b: nat|
                    b < 32 ==> (#[trigger] bits::bit(mask, b) <==> b >= max_size % 32)
                &&& exists|b: nat|
                    max_size % 32 <= b < 32 && #[trigger] bits::bit(last_word, b)
            },
        },
{
    if let Some(BitmapFault::Padding { last_word, mask }) = bitmap_fault(bytes, max_size) {
        let k = bytes.len() as int / 4 - 1;
        assert(bytes.subrange(4 * k, 4 * k + 4) =~= bytes.skip(bytes.len() - 4));
        lemma_word_value(bytes.subrange(4 * k, 4 * k + 4));
        assert(le_words(bytes).last() == le_word(bytes, k));
        bits::lemma_high_mask(max_size % 32);
    }
}

} // verus!
