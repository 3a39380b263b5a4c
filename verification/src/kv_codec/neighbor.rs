//! Stored neighbor lists.
//!
//! A list is stored as `|VectorId|VectorId|...|Invalid|...|VectorId(list length)|`:
//!
//! - the first slots are the neighbor ids,
//! - further slots may be padding,
//! - the last slot is the number of neighbors, encoded as an id.

use crate::byte_image;
use crate::byte_image::Word;
use crate::error::IndexError;
use crate::vector_id::VectorId;
use vstd::prelude::*;

verus! {

/// The stored form of a list without padding.
pub open spec fn stored_list<I: VectorId>(ids: Seq<I>) -> Seq<u8> {
    byte_image::words_bytes(ids) + byte_image::native_bytes(ids.len(), I::width())
}

/// What a stored list of `read_size` bytes is worth to a provider with `dim` slots per list,
/// where `declared` is the number in the last slot read.
pub open spec fn list_verdict(
    read_size: nat,
    dim: nat,
    width: nat,
    declared: nat,
) -> Result<nat, IndexError> {
    if read_size == 0 {
        Ok(0)
    } else if read_size < width {
        Err(IndexError::ListShorterThanId)
    } else if read_size > width * dim {
        Err(IndexError::ListLongerThanMaxDegree)
    } else if read_size % width != 0 {
        Err(IndexError::ListNotMultipleOfId)
    } else if read_size < width * (declared + 1) {
        Err(IndexError::ListShorterThanDeclared)
    } else {
        Ok(declared)
    }
}

/// The neighbors in the stored value `value`, for a provider with `dim` slots per list.
pub open spec fn read_list<I: VectorId>(value: Seq<u8>, dim: nat) -> Result<Seq<I>, IndexError> {
    let slots = byte_image::words_of::<I>(value);
    match list_verdict(value.len(), dim, I::width(), slots.last().bits()) {
        Ok(count) => Ok(slots.take(count as int)),
        Err(e) => Err(e),
    }
}

/// The stored form of a neighbor list: the ids, then their number.
///
/// The number of ids must itself be an id.
pub fn serialize<I: VectorId>(neighbors: &[I]) -> (value: Vec<u8>)
    requires
        neighbors@.len() < byte_image::byte_range(I::width()),
    ensures
        value@ == stored_list(neighbors@),
{
    let mut value = I::to_bytes(neighbors);
    match I::try_from_number(neighbors.len()) {
        Some(len) => {
            let ghost lens = seq![len];
            let mut tail: Vec<I> = Vec::new();
            tail.push(len);
            let mut len_bytes = I::to_bytes(tail.as_slice());
            proof {
                assert(tail@ =~= lens);
                assert(byte_image::words_bytes(lens.drop_last()) =~= Seq::<u8>::empty());
                assert(lens.last() == len);
                assert(byte_image::words_bytes(lens) =~= byte_image::word_bytes(len));
            }
            value.append(&mut len_bytes);
        },
        None => vstd::pervasive::unreached(),
    }
    value
}

/// Checks a stored list of `read_size` bytes, whose ids are in `slots`, and returns the
/// number of neighbors.
///
/// `dim` is the number of slots that a list may have: one more than the max degree.
/// `slots` holds at least the ids of an acceptable list.
pub fn validate_and_count<I: VectorId>(read_size: usize, dim: usize, slots: &[I]) -> (count: Result<
    usize,
    IndexError,
>)
    requires
        I::width() <= read_size <= I::width() * dim && read_size as nat % I::width() == 0
            ==> read_size as nat / I::width() <= slots@.len(),
    ensures
        match (
            count,
            list_verdict(
                read_size as nat,
                dim as nat,
                I::width(),
                slots@[read_size as nat / I::width() - 1].bits(),
            ),
        ) {
            (Ok(n), Ok(m)) => n == m,
            (Err(e), Err(f)) => e == f,
            _ => false,
        },
{
    proof {
        I::lemma_width();
    }
    let id_size = I::size();
    if read_size == 0 {
        return Ok(0);
    }
    if read_size < id_size {
        return Err(IndexError::ListShorterThanId);
    }
    assert(id_size * dim <= 8 * usize::MAX) by (nonlinear_arith)
        requires
            id_size <= 8,
            dim <= usize::MAX,
    ;
    if read_size as u128 > id_size as u128 * dim as u128 {
        return Err(IndexError::ListLongerThanMaxDegree);
    }
    if read_size % id_size != 0 {
        return Err(IndexError::ListNotMultipleOfId);
    }
    let held = read_size / id_size;
    assert(1 <= held && held * id_size == read_size) by (nonlinear_arith)
        requires
            held == read_size / id_size,
            read_size % id_size == 0,
            1 <= id_size <= read_size,
    ;
    let declared = slots[held - 1].number();
    assert(read_size < id_size * (declared + 1) <==> held <= declared) by (nonlinear_arith)
        requires
            held * id_size == read_size,
            id_size >= 1,
    ;
    if held as u64 <= declared {
        return Err(IndexError::ListShorterThanDeclared);
    }
    Ok(declared as usize)
}

/// Reading a serialized list gives the list back, where the reader's slots suffice for it.
pub proof fn law_serialize_round_trip<I: VectorId>(ids: Seq<I>, dim: nat)
    requires
        ids.len() < byte_image::byte_range(I::width()),
        ids.len() + 1 <= dim,
    ensures
        read_list::<I>(stored_list(ids), dim) == Ok::<Seq<I>, IndexError>(ids),
{
    let len = I::of_bits(ids.len());
    I::lemma_of_bits(ids.len());
    let slots = ids.push(len);
    assert(slots.drop_last() =~= ids);
    assert(byte_image::words_bytes(slots) == stored_list(ids));
    lemma_read_padded(slots, ids.len(), dim);
    assert(slots.take(ids.len() as int) =~= ids);
}

/// A stored list may hold padding between its ids and its last slot: reading gives the first
/// `count` slots, where the last slot holds `count`.
pub proof fn lemma_read_padded<I: VectorId>(slots: Seq<I>, count: nat, dim: nat)
    requires
        count < slots.len() <= dim,
        slots.last().bits() == count,
    ensures
        read_list::<I>(byte_image::words_bytes(slots), dim) == Ok::<Seq<I>, IndexError>(
            slots.take(count as int),
        ),
{
    let value = byte_image::words_bytes(slots);
    I::lemma_width();
    byte_image::lemma_words_bytes_len(slots);
    byte_image::lemma_words_of_bytes(slots);
    let w = I::width() as int;
    let n = slots.len() as int;
    let d = dim as int;
    let c = count as int;
    assert((n * w) % w == 0) by {
        vstd::arithmetic::div_mod::lemma_mod_multiples_basic(n, w);
    }
    assert(w <= n * w <= w * d && w * (c + 1) <= n * w) by (nonlinear_arith)
        requires
            1 <= w,
            0 <= c < n <= d,
    ;
}

/// What is read from a stored value. Nothing at all is an empty list. Of whole slots the last holds
/// the number of neighbors, which are the first slots: the value is accepted if and only if there
/// are no more slots than the provider has, and a slot for each neighbor and for the number. Every
/// other value is refused: one that is shorter than a slot, before one that has more bytes than
/// the provider's slots take, before one that ends within a slot.
pub proof fn law_what_is_read<I: VectorId>(value: Seq<u8>, slots: Seq<I>, dim: nat)
    ensures
        read_list::<I>(Seq::empty(), dim) == Ok::<Seq<I>, IndexError>(Seq::empty()),
        0 < value.len() < I::width() ==> read_list::<I>(value, dim) == Err::<Seq<I>, IndexError>(
            IndexError::ListShorterThanId,
        ),
        value.len() >= I::width() && value.len() > dim * I::width() ==> read_list::<I>(value, dim)
            == Err::<Seq<I>, IndexError>(IndexError::ListLongerThanMaxDegree),
        I::width() <= value.len() <= dim * I::width() && value.len() % I::width() != 0
            ==> read_list::<I>(value, dim) == Err::<Seq<I>, IndexError>(
            IndexError::ListNotMultipleOfId,
        ),
        0 < slots.len() <= dim ==> read_list::<I>(byte_image::words_bytes(slots), dim) == (
        if slots.last().bits() < slots.len() {
            Ok::<Seq<I>, IndexError>(slots.take(slots.last().bits() as int))
        } else {
            Err(IndexError::ListShorterThanDeclared)
        }),
        slots.len() > dim ==> read_list::<I>(byte_image::words_bytes(slots), dim) == Err::<
            Seq<I>,
            IndexError,
        >(IndexError::ListLongerThanMaxDegree),
{
    I::lemma_width();
    let w = I::width() as int;
    let d = dim as int;
    let n = slots.len() as int;
    let bytes = byte_image::words_bytes(slots);
    byte_image::lemma_words_bytes_len(slots);
    byte_image::lemma_words_of_bytes(slots);
    assert(byte_image::words_of::<I>(Seq::empty()).take(0) =~= Seq::<I>::empty());
    assert(w * d == d * w) by (nonlinear_arith);
    if n > d {
        assert(n * w > w * d && n * w >= w) by (nonlinear_arith)
            requires
                n > d >= 0,
                w >= 1,
        ;
    } else if n > 0 {
        let declared = slots.last().bits() as int;
        assert(w <= n * w <= w * d) by (nonlinear_arith)
            requires
                0 < n <= d,
                w >= 1,
        ;
        assert((n * w) % w == 0) by {
            vstd::arithmetic::div_mod::lemma_mod_multiples_basic(n, w);
        }
        assert(n * w < w * (declared + 1) <==> n <= declared) by (nonlinear_arith)
            requires
                w >= 1,
        ;
    }
}

/// The stored form of a list is its ids as slots, and its length as one slot more.
pub proof fn law_slots_of_a_stored_list<I: VectorId>(ids: Seq<I>)
    requires
        ids.len() < byte_image::byte_range(I::width()),
    ensures
        ({
            let slots = byte_image::words_of::<I>(stored_list(ids));
            &&& byte_image::words_bytes(slots) == stored_list(ids)
            &&& slots.len() == ids.len() + 1
            &&& slots.last().bits() == ids.len()
            &&& forall|k: int| 0 <= k < ids.len() ==> #[trigger] slots[k] == ids[k]
        }),
{
    let len = I::of_bits(ids.len());
    I::lemma_of_bits(ids.len());
    let slots = ids.push(len);
    assert(slots.drop_last() =~= ids);
    assert(byte_image::words_bytes(slots) == stored_list(ids));
    byte_image::lemma_words_of_bytes(slots);
}

} // verus!
