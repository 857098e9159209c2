//! Ranks into a filtered array and the rows of the unfiltered array that they stand for.
//!
//! A rank counts selected rows only: rank `k` stands for the row at the `k`-th true bit of the
//! filter.

use vstd::prelude::*;

use crate::error::{VortexError, VortexResult};
use crate::mask::{
    count_true, is_contiguous, lemma_positions_contiguous, lemma_positions_sound,
    lemma_rank_of_position, true_positions, Mask,
};
use crate::native::{int_to_usize, FixedWidth, IntegerPType};

verus! {

/// The error that a rank into an array of `n` rows gives, if any.
pub open spec fn rank_error(rank: int, n: usize) -> Option<VortexError> {
    match int_to_usize(rank) {
        None => Some(VortexError::OutOfBounds { index: 0, start: 0, stop: n }),
        Some(k) => if k >= n {
            Some(VortexError::OutOfBounds { index: k, start: 0, stop: n })
        } else {
            None
        },
    }
}

/// The error of the first rank that gives one; null ranks give none.
pub open spec fn first_rank_error(ranks: Seq<Option<int>>, n: usize) -> Option<VortexError>
    decreases ranks.len(),
{
    if ranks.len() == 0 {
        None
    } else {
        match first_rank_error(ranks.drop_last(), n) {
            Some(e) => Some(e),
            None => match ranks.last() {
                Some(rank) => rank_error(rank, n),
                None => None,
            },
        }
    }
}

/// The ranks of an index array without nulls.
pub open spec fn valid_ranks<P: IntegerPType>(ranks: Seq<P>) -> Seq<Option<int>> {
    Seq::new(ranks.len(), |i: int| Some(ranks[i].as_int()))
}

/// The ranks of an index array whose row `i` is null unless `validity[i]`.
pub open spec fn nullable_ranks<P: IntegerPType>(ranks: Seq<P>, validity: Seq<bool>) -> Seq<
    Option<int>,
> {
    Seq::new(
        ranks.len(),
        |i: int|
            if validity[i] {
                Some(ranks[i].as_int())
            } else {
                None
            },
    )
}

/// The position that a rank stands for; zero for a null rank.
pub open spec fn position_of(rank: Option<int>, positions: Seq<int>) -> int {
    match rank {
        Some(k) => positions[k],
        None => 0,
    }
}

/// Each rank replaced by the position it stands for, and each null by zero.
pub open spec fn translated(ranks: Seq<Option<int>>, positions: Seq<int>) -> Seq<int> {
    Seq::new(ranks.len(), |i: int| position_of(ranks[i], positions))
}

/// The value at the position that a rank stands for; zero for a null rank.
pub open spec fn value_of<T: FixedWidth>(
    rank: Option<int>,
    positions: Seq<int>,
    values: Seq<T>,
) -> T {
    match rank {
        Some(k) => values[positions[k]],
        None => T::zero_value(),
    }
}

/// Each rank replaced by the value at the position it stands for, and each null by zero.
pub open spec fn gathered<T: FixedWidth>(
    ranks: Seq<Option<int>>,
    positions: Seq<int>,
    values: Seq<T>,
) -> Seq<T> {
    Seq::new(ranks.len(), |i: int| value_of(ranks[i], positions, values))
}

/// The translated positions as mathematical integers.
pub open spec fn u64_ints(s: Seq<u64>) -> Seq<int> {
    s.map_values(|x: u64| x as int)
}

/// The outcome of translating `ranks`: the positions, or the error of the first bad rank.
pub open spec fn translates(
    ranks: Seq<Option<int>>,
    positions: Seq<int>,
    n: usize,
    r: VortexResult<Vec<u64>>,
) -> bool {
    match first_rank_error(ranks, n) {
        Some(e) => r == Err::<Vec<u64>, VortexError>(e),
        None => r is Ok && u64_ints(r->Ok_0@) == translated(ranks, positions),
    }
}

/// The outcome of gathering by `ranks`: the values, or the error of the first bad rank.
pub open spec fn gathers<T: FixedWidth>(
    ranks: Seq<Option<int>>,
    positions: Seq<int>,
    values: Seq<T>,
    n: usize,
    r: VortexResult<Vec<T>>,
) -> bool {
    match first_rank_error(ranks, n) {
        Some(e) => r == Err::<Vec<T>, VortexError>(e),
        None => r is Ok && r->Ok_0@ == gathered(ranks, positions, values),
    }
}

/// An error of a prefix is the error of the whole.
pub proof fn lemma_prefix_error(ranks: Seq<Option<int>>, n: usize, k: int)
    requires
        0 <= k <= ranks.len(),
        first_rank_error(ranks.take(k), n) is Some,
    ensures
        first_rank_error(ranks, n) == first_rank_error(ranks.take(k), n),
    decreases ranks.len() - k,
{
    if k == ranks.len() {
        assert(ranks.take(k) =~= ranks);
    } else {
        assert(ranks.take(k + 1).drop_last() =~= ranks.take(k));
        lemma_prefix_error(ranks, n, k + 1);
    }
}

/// Extending a prefix without errors by one rank leaves that rank's own error, if it has one.
pub proof fn lemma_extend_prefix(ranks: Seq<Option<int>>, n: usize, k: int)
    requires
        0 <= k < ranks.len(),
        first_rank_error(ranks.take(k), n) is None,
    ensures
        first_rank_error(ranks.take(k + 1), n) == (match ranks[k] {
            Some(rank) => rank_error(rank, n),
            None => None,
        }),
        first_rank_error(ranks.take(k + 1), n) is Some ==> first_rank_error(ranks, n)
            == first_rank_error(ranks.take(k + 1), n),
{
    assert(ranks.take(k + 1).drop_last() =~= ranks.take(k));
    assert(ranks.take(k + 1).last() == ranks[k]);
    if first_rank_error(ranks.take(k + 1), n) is Some {
        lemma_prefix_error(ranks, n, k + 1);
    }
}

/// Without an error every rank is null or in bounds.
pub proof fn lemma_no_error_in_bounds(ranks: Seq<Option<int>>, n: usize)
    requires
        first_rank_error(ranks, n) is None,
    ensures
        forall|i: int|
            0 <= i < ranks.len() && (#[trigger] ranks[i]) is Some ==> 0 <= ranks[i]->0 < n,
    decreases ranks.len(),
{
    if ranks.len() > 0 {
        lemma_no_error_in_bounds(ranks.drop_last(), n);
        assert forall|i: int| 0 <= i < ranks.len() && (#[trigger] ranks[i]) is Some implies 0
            <= ranks[i]->0 < n by {
            if i < ranks.len() - 1 {
                assert(ranks.drop_last()[i] == ranks[i]);
            }
        }
    }
}

/// Ranks that are null or in bounds give no error.
pub proof fn lemma_in_bounds_no_error(ranks: Seq<Option<int>>, n: usize)
    requires
        forall|i: int|
            0 <= i < ranks.len() && (#[trigger] ranks[i]) is Some ==> 0 <= ranks[i]->0 < n,
    ensures
        first_rank_error(ranks, n) is None,
    decreases ranks.len(),
{
    if ranks.len() > 0 {
        assert forall|i: int|
            0 <= i < ranks.drop_last().len() && (#[trigger] ranks.drop_last()[i]) is Some implies 0
            <= ranks.drop_last()[i]->0 < n by {
            assert(ranks.drop_last()[i] == ranks[i]);
        }
        lemma_in_bounds_no_error(ranks.drop_last(), n);
        assert(ranks.last() == ranks[ranks.len() - 1]);
    }
}

/// Only null ranks give no error.
pub proof fn lemma_all_null_no_error(ranks: Seq<Option<int>>, n: usize)
    requires
        forall|i: int| 0 <= i < ranks.len() ==> (#[trigger] ranks[i]) is None,
    ensures
        first_rank_error(ranks, n) is None,
    decreases ranks.len(),
{
    if ranks.len() > 0 {
        assert forall|i: int| 0 <= i < ranks.drop_last().len() implies (
        #[trigger] ranks.drop_last()[i]) is None by {
            assert(ranks[i] is None);
        }
        lemma_all_null_no_error(ranks.drop_last(), n);
        assert(ranks[ranks.len() - 1] is None);
    }
}

/// A rank is refused exactly if it is negative or not below the number of rows. The error names the
/// rank, or zero if it cannot be named as an index, and the bounds.
pub proof fn lemma_rank_error(rank: int, n: usize)
    ensures
        rank_error(rank, n) is None <==> 0 <= rank < n,
        rank >= n && rank <= usize::MAX ==> rank_error(rank, n) == Some(
            VortexError::OutOfBounds { index: rank as usize, start: 0, stop: n },
        ),
        rank < 0 || rank > usize::MAX ==> rank_error(rank, n) == Some(
            VortexError::OutOfBounds { index: 0, start: 0, stop: n },
        ),
{
}

/// The error of ranks is that of the first one that is neither null nor in bounds.
pub proof fn lemma_first_bad_rank(ranks: Seq<Option<int>>, n: usize, k: int)
    requires
        0 <= k < ranks.len(),
        ranks[k] is Some,
        !(0 <= ranks[k]->0 < n),
        forall|j: int|
            0 <= j < k && (#[trigger] ranks[j]) is Some ==> 0 <= ranks[j]->0 < n,
    ensures
        first_rank_error(ranks, n) == Some(
            VortexError::OutOfBounds {
                index: if 0 <= ranks[k]->0 <= usize::MAX {
                    ranks[k]->0 as usize
                } else {
                    0
                },
                start: 0,
                stop: n,
            },
        ),
{
    let before = ranks.take(k);
    assert forall|j: int| 0 <= j < before.len() && (#[trigger] before[j]) is Some implies 0
        <= before[j]->0 < n by {
        assert(before[j] == ranks[j]);
    }
    lemma_in_bounds_no_error(before, n);
    lemma_extend_prefix(ranks, n, k);
}

/// The position that a rank is listed at has as many true bits before it as the rank says.
pub proof fn lemma_position_has_rank(bits: Seq<bool>, k: int)
    requires
        0 <= k < count_true(bits),
    ensures
        0 <= true_positions(bits)[k] < bits.len(),
        bits[true_positions(bits)[k]],
        count_true(bits.take(true_positions(bits)[k])) == k,
{
    lemma_positions_sound(bits);
    let p = true_positions(bits)[k];
    lemma_rank_of_position(bits, p);
    let j = count_true(bits.take(p)) as int;
    if j < k {
        assert(true_positions(bits)[j] < true_positions(bits)[k]);
    } else if k < j {
        assert(true_positions(bits)[k] < true_positions(bits)[j]);
    }
}

/// Translating ranks into filtered rows fails exactly if a rank is neither null nor in bounds.
/// Otherwise it gives one position for each rank: one that is selected and has as many selected
/// positions before it as the rank says. Null ranks give zero.
pub proof fn lemma_translated_rank(
    ranks: Seq<Option<int>>,
    bits: Seq<bool>,
    n: usize,
    r: VortexResult<Vec<u64>>,
    i: int,
)
    requires
        translates(ranks, true_positions(bits), n, r),
        n == count_true(bits),
        0 <= i < ranks.len(),
    ensures
        r is Err ==> exists|k: int|
            0 <= k < ranks.len() && (#[trigger] ranks[k]) is Some && !(0 <= ranks[k]->0 < n),
        r matches Ok(out) ==> {
            &&& out@.len() == ranks.len()
            &&& ranks[i] is None ==> out@[i] == 0
            &&& ranks[i] matches Some(k) ==> {
                &&& 0 <= k < n
                &&& out@[i] < bits.len()
                &&& bits[out@[i] as int]
                &&& count_true(bits.take(out@[i] as int)) == k
            }
        },
{
    if first_rank_error(ranks, n) is None {
        lemma_no_error_in_bounds(ranks, n);
        let out = r->Ok_0;
        assert(u64_ints(out@).len() == out@.len());
        assert(u64_ints(out@)[i] == out@[i] as int);
        if let Some(k) = ranks[i] {
            lemma_position_has_rank(bits, k);
        }
    } else if forall|k: int|
        0 <= k < ranks.len() && (#[trigger] ranks[k]) is Some ==> 0 <= ranks[k]->0 < n {
        lemma_in_bounds_no_error(ranks, n);
    }
}

/// Gathering by ranks into filtered values fails exactly if a rank is neither null nor in bounds.
/// Otherwise it gives one value for each rank: the one at the selected position that has as many
/// selected positions before it as the rank says. Null ranks give zero.
pub proof fn lemma_gathered_rank<T: FixedWidth>(
    ranks: Seq<Option<int>>,
    bits: Seq<bool>,
    values: Seq<T>,
    n: usize,
    r: VortexResult<Vec<T>>,
    i: int,
    p: int,
)
    requires
        gathers(ranks, true_positions(bits), values, n, r),
        n == count_true(bits),
        0 <= i < ranks.len(),
        0 <= p < bits.len(),
    ensures
        r is Err ==> exists|k: int|
            0 <= k < ranks.len() && (#[trigger] ranks[k]) is Some && !(0 <= ranks[k]->0 < n),
        r matches Ok(out) ==> {
            &&& out@.len() == ranks.len()
            &&& ranks[i] is None ==> out@[i] == T::zero_value()
            &&& ranks[i] matches Some(k) ==> 0 <= k < n && (bits[p] && count_true(bits.take(p)) == k
                ==> out@[i] == values[p])
        },
{
    if first_rank_error(ranks, n) is None {
        lemma_no_error_in_bounds(ranks, n);
        if bits[p] {
            lemma_rank_of_position(bits, p);
        }
    } else if forall|k: int|
        0 <= k < ranks.len() && (#[trigger] ranks[k]) is Some ==> 0 <= ranks[k]->0 < n {
        lemma_in_bounds_no_error(ranks, n);
    }
}

/// Indices without nulls are their integers; others are that where they are valid.
pub proof fn lemma_ranks<P: IntegerPType>(ranks: Seq<P>, validity: Seq<bool>, i: int)
    requires
        0 <= i < ranks.len(),
    ensures
        valid_ranks(ranks).len() == ranks.len(),
        valid_ranks(ranks)[i] == Some(ranks[i].as_int()),
        nullable_ranks(ranks, validity).len() == ranks.len(),
        validity[i] ==> nullable_ranks(ranks, validity)[i] == Some(ranks[i].as_int()),
        !validity[i] ==> nullable_ranks(ranks, validity)[i] is None,
{
}

/// Checks a rank against the filtered length.
pub fn validate_rank<P: IntegerPType>(rank: P, filtered_len: usize) -> (r: VortexResult<usize>)
    ensures
        match rank_error(rank.as_int(), filtered_len) {
            Some(e) => r == Err::<usize, VortexError>(e),
            None => r is Ok && r->Ok_0 == rank.as_int() && r->Ok_0 < filtered_len,
        },
{
    match rank.to_usize() {
        None => Err(VortexError::OutOfBounds { index: 0, start: 0, stop: filtered_len }),
        Some(k) => if k >= filtered_len {
            Err(VortexError::OutOfBounds { index: k, start: 0, stop: filtered_len })
        } else {
            Ok(k)
        },
    }
}

/// The first selected row, if the selected rows are one contiguous run of `filtered_len` rows.
pub fn contiguous_filter_start(filter: &Mask, filtered_len: usize) -> (r: Option<usize>)
    requires
        filter.wf(),
        filtered_len == count_true(filter@),
    ensures
        r is Some <==> is_contiguous(filter@),
        r matches Some(start) ==> {
            &&& start + filtered_len <= filter@.len()
            &&& forall|k: int|
                0 <= k < filtered_len ==> #[trigger] true_positions(filter@)[k] == start + k
        },
{
    proof {
        lemma_positions_sound(filter@);
        filter.lemma_len();
    }
    let start: usize = match filter.first() {
        Some(start) => start,
        None => return None,
    };
    let last: usize = match filter.last() {
        Some(last) => last,
        None => return None,
    };
    assert(last < filter@.len());
    let end: usize = match last.checked_add(1) {
        Some(end) => end,
        None => return None,
    };
    assert(start <= last) by {
        let positions = true_positions(filter@);
        assert(positions[0] == start);
        assert(positions[positions.len() - 1] == last);
    }
    if end - start == filtered_len {
        proof {
            lemma_positions_contiguous(filter@);
        }
        Some(start)
    } else {
        None
    }
}

} // verus!
