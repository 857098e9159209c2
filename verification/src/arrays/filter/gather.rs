//! Gathering values of the unfiltered array by ranks into the filtered array.

use vstd::prelude::*;

use super::rank::{
    contiguous_filter_start, first_rank_error, gathered, gathers, lemma_all_null_no_error,
    lemma_extend_prefix, lemma_no_error_in_bounds, nullable_ranks, rank_error,
    valid_ranks, validate_rank, value_of,
};
use super::translate::run_from;
use crate::error::{VortexError, VortexResult};
use crate::mask::{
    as_ints, count_true, is_contiguous, lemma_count_empty, lemma_positions_all_true,
    lemma_positions_sound, true_positions, AllOr, Mask,
};
use crate::native::{FixedWidth, IntegerPType};

verus! {

/// Gathering only looks at positions below the filtered length.
proof fn lemma_gathered_agrees<T: FixedWidth>(
    ranks: Seq<Option<int>>,
    n: usize,
    left: Seq<int>,
    left_values: Seq<T>,
    right: Seq<int>,
    right_values: Seq<T>,
)
    requires
        first_rank_error(ranks, n) is None,
        forall|k: int|
            0 <= k < n ==> left_values[#[trigger] left[k]] == right_values[#[trigger] right[k]],
    ensures
        gathered(ranks, left, left_values) == gathered(ranks, right, right_values),
{
    lemma_no_error_in_bounds(ranks, n);
    assert forall|i: int| 0 <= i < ranks.len() implies value_of(
        #[trigger] ranks[i],
        left,
        left_values,
    ) == value_of(ranks[i], right, right_values) by {
        if let Some(k) = ranks[i] {
            assert(left_values[left[k]] == right_values[right[k]]);
        }
    }
    assert(gathered(ranks, left, left_values) =~= gathered(ranks, right, right_values));
}

/// One more gathered value extends the values gathered before it.
proof fn lemma_push_gathered<T: FixedWidth>(
    out: Seq<T>,
    value: T,
    ranks: Seq<Option<int>>,
    positions: Seq<int>,
    values: Seq<T>,
    i: int,
)
    requires
        0 <= i < ranks.len(),
        out == gathered(ranks.take(i), positions, values),
        value == value_of(ranks[i], positions, values),
    ensures
        out.push(value) == gathered(ranks.take(i + 1), positions, values),
{
    assert forall|j: int| 0 <= j < i implies out[j] == value_of(
        #[trigger] ranks[j],
        positions,
        values,
    ) by {
        assert(ranks.take(i)[j] == ranks[j]);
        assert(gathered(ranks.take(i), positions, values)[j] == value_of(
            ranks.take(i)[j],
            positions,
            values,
        ));
    }
    assert(out.push(value) =~= gathered(ranks.take(i + 1), positions, values));
}

/// A list of `len` zeros.
fn zeroed_values<T: FixedWidth>(len: usize) -> (r: Vec<T>)
    ensures
        r@ == Seq::new(len as nat, |i: int| T::zero_value()),
{
    let mut out: Vec<T> = Vec::with_capacity(len);
    let mut i: usize = 0;
    while i < len
        invariant
            i <= len,
            out@ == Seq::new(i as nat, |j: int| T::zero_value()),
        decreases len - i,
    {
        out.push(T::zero());
        i = i + 1;
        assert(out@ =~= Seq::new(i as nat, |j: int| T::zero_value()));
    }
    out
}

/// Gathers values of a filtered array by rank, where some ranks may be null.
///
/// Row `i` of the result is the value at the `ranks[i]`-th selected position; null ranks give zero.
/// The filter selects at least one row, unless there are ranks and every one of them is null.
pub fn take_filtered_values_nullable<T: FixedWidth, P: IntegerPType>(
    values: &[T],
    filter: &Mask,
    ranks: &[P],
    indices_validity: &Mask,
    filtered_len: usize,
) -> (r: VortexResult<Vec<T>>)
    requires
        filter.wf(),
        filter@.len() == values@.len(),
        indices_validity.wf(),
        indices_validity@.len() == ranks@.len(),
        filtered_len == count_true(filter@),
        filtered_len > 0 || (ranks@.len() > 0 && count_true(indices_validity@) == 0),
    ensures
        gathers(nullable_ranks(ranks@, indices_validity@), true_positions(filter@), values@, filtered_len, r),
{
    let ghost rs = nullable_ranks(ranks@, indices_validity@);
    let ghost positions = true_positions(filter@);
    proof {
        lemma_positions_sound(filter@);
        filter.lemma_len();
    }
    if indices_validity.all_false() {
        let zeros = zeroed_values::<T>(ranks.len());
        proof {
            lemma_count_empty(indices_validity@);
            lemma_all_null_no_error(rs, filtered_len);
            assert(zeros@ =~= gathered(rs, positions, values@));
        }
        return Ok(zeros);
    }
    if let Some(start) = contiguous_filter_start(filter, filtered_len) {
        let mut out: Vec<T> = Vec::with_capacity(ranks.len());
        let mut i: usize = 0;
        assert(out@ =~= gathered(rs.take(0), positions, values@));
        while i < ranks.len()
            invariant
                i <= ranks@.len(),
                indices_validity@.len() == ranks@.len(),
                rs == nullable_ranks(ranks@, indices_validity@),
                start + filtered_len <= values@.len(),
                values@.len() <= usize::MAX,
                forall|k: int| 0 <= k < filtered_len ==> #[trigger] positions[k] == start + k,
                first_rank_error(rs.take(i as int), filtered_len) is None,
                out@ == gathered(rs.take(i as int), positions, values@),
            decreases ranks@.len() - i,
        {
            proof {
                lemma_extend_prefix(rs, filtered_len, i as int);
            }
            let value: T = if indices_validity.value(i) {
                let rank: usize = match validate_rank(ranks[i], filtered_len) {
                    Ok(rank) => rank,
                    Err(e) => return Err(e),
                };
                values[start + rank]
            } else {
                T::zero()
            };
            proof {
                lemma_push_gathered(out@, value, rs, positions, values@, i as int);
            }
            out.push(value);
            i = i + 1;
        }
        assert(rs.take(i as int) =~= rs);
        return Ok(out);
    }
    let indices: &[usize] = match filter.indices() {
        AllOr::All => {
            let r = take_values_by_rank_nullable(values, ranks, indices_validity, filtered_len);
            proof {
                lemma_positions_all_true(filter@);
                if first_rank_error(rs, filtered_len) is None {
                    lemma_gathered_agrees(
                        rs,
                        filtered_len,
                        run_from(0, filtered_len as int),
                        values@,
                        positions,
                        values@,
                    );
                }
            }
            return r;
        },
        AllOr::Nothing => {
            assert(false) by {
                lemma_count_empty(filter@);
            }
            return Ok(Vec::new());
        },
        AllOr::Mixed(indices) => indices,
    };
    assert(as_ints(indices@).len() == indices@.len());
    let mut out: Vec<T> = Vec::with_capacity(ranks.len());
    let mut i: usize = 0;
    assert(out@ =~= gathered(rs.take(0), positions, values@));
    while i < ranks.len()
        invariant
            i <= ranks@.len(),
            indices_validity@.len() == ranks@.len(),
            rs == nullable_ranks(ranks@, indices_validity@),
            indices@.len() == filtered_len,
            as_ints(indices@) == positions,
            forall|k: int| 0 <= k < filtered_len ==> 0 <= #[trigger] positions[k] < values@.len(),
            first_rank_error(rs.take(i as int), filtered_len) is None,
            out@ == gathered(rs.take(i as int), positions, values@),
        decreases ranks@.len() - i,
    {
        proof {
            lemma_extend_prefix(rs, filtered_len, i as int);
        }
        let value: T = if indices_validity.value(i) {
            let rank: usize = match validate_rank(ranks[i], filtered_len) {
                Ok(rank) => rank,
                Err(e) => return Err(e),
            };
            {
                let position: usize = indices[rank];
                assert(as_ints(indices@)[rank as int] == position);
                values[position]
            }
        } else {
            T::zero()
        };
        proof {
            lemma_push_gathered(out@, value, rs, positions, values@, i as int);
        }
        out.push(value);
        i = i + 1;
    }
    assert(rs.take(i as int) =~= rs);
    Ok(out)
}

/// Gathers the first `filtered_len` values by rank, where some ranks may be null.
pub fn take_values_by_rank_nullable<T: FixedWidth, P: IntegerPType>(
    values: &[T],
    ranks: &[P],
    indices_validity: &Mask,
    filtered_len: usize,
) -> (r: VortexResult<Vec<T>>)
    requires
        filtered_len <= values@.len(),
        indices_validity@.len() == ranks@.len(),
    ensures
        gathers(nullable_ranks(ranks@, indices_validity@), run_from(0, filtered_len as int), values@, filtered_len, r),
{
    let ghost rs = nullable_ranks(ranks@, indices_validity@);
    let ghost positions = run_from(0, filtered_len as int);
    let mut out: Vec<T> = Vec::with_capacity(ranks.len());
    let mut i: usize = 0;
    assert(out@ =~= gathered(rs.take(0), positions, values@));
    while i < ranks.len()
        invariant
            i <= ranks@.len(),
            indices_validity@.len() == ranks@.len(),
            rs == nullable_ranks(ranks@, indices_validity@),
            filtered_len <= values@.len(),
            positions == run_from(0, filtered_len as int),
            first_rank_error(rs.take(i as int), filtered_len) is None,
            out@ == gathered(rs.take(i as int), positions, values@),
        decreases ranks@.len() - i,
    {
        proof {
            lemma_extend_prefix(rs, filtered_len, i as int);
        }
        let value: T = if indices_validity.value(i) {
            let rank: usize = match validate_rank(ranks[i], filtered_len) {
                Ok(rank) => rank,
                Err(e) => return Err(e),
            };
            values[rank]
        } else {
            T::zero()
        };
        proof {
            lemma_push_gathered(out@, value, rs, positions, values@, i as int);
        }
        out.push(value);
        i = i + 1;
    }
    assert(rs.take(i as int) =~= rs);
    Ok(out)
}

/// Gathers values of a filtered array by rank.
///
/// Row `i` of the result is the value at the `ranks[i]`-th selected position.
pub fn take_filtered_values<T: FixedWidth, P: IntegerPType>(
    values: &[T],
    filter: &Mask,
    ranks: &[P],
    filtered_len: usize,
) -> (r: VortexResult<Vec<T>>)
    requires
        filter.wf(),
        filter@.len() == values@.len(),
        filtered_len == count_true(filter@),
        filtered_len > 0,
    ensures
        gathers(valid_ranks(ranks@), true_positions(filter@), values@, filtered_len, r),
{
    let ghost rs = valid_ranks(ranks@);
    let ghost positions = true_positions(filter@);
    proof {
        lemma_positions_sound(filter@);
        filter.lemma_len();
    }
    if let Some(start) = contiguous_filter_start(filter, filtered_len) {
        let mut out: Vec<T> = Vec::with_capacity(ranks.len());
        let mut i: usize = 0;
        assert(out@ =~= gathered(rs.take(0), positions, values@));
        while i < ranks.len()
            invariant
                i <= ranks@.len(),
                rs == valid_ranks(ranks@),
                start + filtered_len <= values@.len(),
                values@.len() <= usize::MAX,
                forall|k: int| 0 <= k < filtered_len ==> #[trigger] positions[k] == start + k,
                first_rank_error(rs.take(i as int), filtered_len) is None,
                out@ == gathered(rs.take(i as int), positions, values@),
            decreases ranks@.len() - i,
        {
            proof {
                lemma_extend_prefix(rs, filtered_len, i as int);
            }
            let rank: usize = match validate_rank(ranks[i], filtered_len) {
                Ok(rank) => rank,
                Err(e) => return Err(e),
            };
            let value: T = values[start + rank];
            proof {
                lemma_push_gathered(out@, value, rs, positions, values@, i as int);
            }
            out.push(value);
            i = i + 1;
        }
        assert(rs.take(i as int) =~= rs);
        return Ok(out);
    }
    let indices: &[usize] = match filter.indices() {
        AllOr::All => {
            let r = take_values_by_rank(values, ranks, filtered_len);
            proof {
                lemma_positions_all_true(filter@);
                if first_rank_error(rs, filtered_len) is None {
                    lemma_gathered_agrees(
                        rs,
                        filtered_len,
                        run_from(0, filtered_len as int),
                        values@,
                        positions,
                        values@,
                    );
                }
            }
            return r;
        },
        AllOr::Nothing => {
            assert(false) by {
                lemma_count_empty(filter@);
            }
            return Ok(Vec::new());
        },
        AllOr::Mixed(indices) => indices,
    };
    assert(as_ints(indices@).len() == indices@.len());
    if ranks.len() == filtered_len {
        let leads_with_zero: bool = match first_rank_is_zero(ranks, filtered_len) {
            Ok(b) => b,
            Err(e) => {
                proof {
                    lemma_extend_prefix(rs, filtered_len, 0);
                }
                return Err(e);
            },
        };
        if !leads_with_zero {
            assert forall|k: int| 0 <= k < indices@.len() implies #[trigger] indices@[k]
                < values@.len() by {
                assert(as_ints(indices@)[k] == positions[k]);
            }
            let filtered = gather_values_by_indices(values, indices);
            let r = take_values_by_rank(filtered.as_slice(), ranks, filtered_len);
            proof {
                if first_rank_error(rs, filtered_len) is None {
                    lemma_gathered_agrees(
                        rs,
                        filtered_len,
                        run_from(0, filtered_len as int),
                        filtered@,
                        positions,
                        values@,
                    );
                }
            }
            return r;
        }
    }
    let mut out: Vec<T> = Vec::with_capacity(ranks.len());
    let mut i: usize = 0;
    assert(out@ =~= gathered(rs.take(0), positions, values@));
    while i < ranks.len()
        invariant
            i <= ranks@.len(),
            rs == valid_ranks(ranks@),
            indices@.len() == filtered_len,
            as_ints(indices@) == positions,
            forall|k: int| 0 <= k < filtered_len ==> 0 <= #[trigger] positions[k] < values@.len(),
            first_rank_error(rs.take(i as int), filtered_len) is None,
            out@ == gathered(rs.take(i as int), positions, values@),
        decreases ranks@.len() - i,
    {
        proof {
            lemma_extend_prefix(rs, filtered_len, i as int);
        }
        let rank: usize = match validate_rank(ranks[i], filtered_len) {
            Ok(rank) => rank,
            Err(e) => return Err(e),
        };
        let value: T = {
                let position: usize = indices[rank];
                assert(as_ints(indices@)[rank as int] == position);
                values[position]
            };
        proof {
            lemma_push_gathered(out@, value, rs, positions, values@, i as int);
        }
        out.push(value);
        i = i + 1;
    }
    assert(rs.take(i as int) =~= rs);
    Ok(out)
}

/// Gathers the first `filtered_len` values by rank.
pub fn take_values_by_rank<T: FixedWidth, P: IntegerPType>(
    values: &[T],
    ranks: &[P],
    filtered_len: usize,
) -> (r: VortexResult<Vec<T>>)
    requires
        filtered_len <= values@.len(),
    ensures
        gathers(valid_ranks(ranks@), run_from(0, filtered_len as int), values@, filtered_len, r),
{
    let ghost rs = valid_ranks(ranks@);
    let ghost positions = run_from(0, filtered_len as int);
    let mut out: Vec<T> = Vec::with_capacity(ranks.len());
    let mut i: usize = 0;
    assert(out@ =~= gathered(rs.take(0), positions, values@));
    while i < ranks.len()
        invariant
            i <= ranks@.len(),
            rs == valid_ranks(ranks@),
            filtered_len <= values@.len(),
            positions == run_from(0, filtered_len as int),
            first_rank_error(rs.take(i as int), filtered_len) is None,
            out@ == gathered(rs.take(i as int), positions, values@),
        decreases ranks@.len() - i,
    {
        proof {
            lemma_extend_prefix(rs, filtered_len, i as int);
        }
        let rank: usize = match validate_rank(ranks[i], filtered_len) {
            Ok(rank) => rank,
            Err(e) => return Err(e),
        };
        let value: T = values[rank];
        proof {
            lemma_push_gathered(out@, value, rs, positions, values@, i as int);
        }
        out.push(value);
        i = i + 1;
    }
    assert(rs.take(i as int) =~= rs);
    Ok(out)
}

/// What a scan for the ranks `0, 1, 2, ..` finds: whether all ranks are in sequence, or the error
/// of a bad rank that comes before the first rank out of sequence.
pub open spec fn sequential_scan(ranks: Seq<Option<int>>, n: usize) -> VortexResult<bool>
    decreases ranks.len(),
{
    if ranks.len() == 0 {
        Ok(true)
    } else {
        match sequential_scan(ranks.drop_last(), n) {
            Ok(true) => match rank_error(ranks.last()->0, n) {
                Some(e) => Err(e),
                None => Ok(ranks.last()->0 == ranks.len() - 1),
            },
            stopped => stopped,
        }
    }
}

/// A scan that stops in a prefix gives the same answer for the whole.
proof fn lemma_scan_prefix(ranks: Seq<Option<int>>, n: usize, k: int)
    requires
        0 <= k <= ranks.len(),
        sequential_scan(ranks.take(k), n) != Ok::<bool, VortexError>(true),
    ensures
        sequential_scan(ranks, n) == sequential_scan(ranks.take(k), n),
    decreases ranks.len() - k,
{
    if k == ranks.len() {
        assert(ranks.take(k) =~= ranks);
    } else {
        assert(ranks.take(k + 1).drop_last() =~= ranks.take(k));
        lemma_scan_prefix(ranks, n, k + 1);
    }
}

/// Ranks in sequence are in bounds, and an error of the scan is the error of the first bad rank.
pub proof fn lemma_scan_errors(ranks: Seq<Option<int>>, n: usize)
    requires
        forall|i: int| 0 <= i < ranks.len() ==> (#[trigger] ranks[i]) is Some,
    ensures
        match sequential_scan(ranks, n) {
            Err(e) => first_rank_error(ranks, n) == Some(e),
            Ok(true) => {
                &&& first_rank_error(ranks, n) is None
                &&& ranks.len() <= n
                &&& forall|i: int|
                    0 <= i < ranks.len() ==> (#[trigger] ranks[i]) == Some(i)
            },
            Ok(false) => true,
        },
    decreases ranks.len(),
{
    if ranks.len() > 0 {
        let front = ranks.drop_last();
        assert forall|i: int| 0 <= i < front.len() implies (#[trigger] front[i]) is Some by {
            assert(ranks[i] is Some);
        }
        lemma_scan_errors(front, n);
        assert(ranks[ranks.len() - 1] is Some);
        if sequential_scan(ranks, n) == Ok::<bool, VortexError>(true) {
            assert forall|i: int| 0 <= i < ranks.len() implies (#[trigger] ranks[i]) == Some(
                i,
            ) by {
                if i < ranks.len() - 1 {
                    assert(front[i] == ranks[i]);
                }
            }
        }
    }
}

/// The ranks `0, 1, 2, ..` are in sequence as long as there are rows for them, and a scan that finds
/// otherwise has come to a rank that is not the next one.
pub proof fn lemma_scan_in_sequence(ranks: Seq<Option<int>>, n: usize)
    requires
        forall|i: int| 0 <= i < ranks.len() ==> (#[trigger] ranks[i]) is Some,
    ensures
        (forall|i: int| 0 <= i < ranks.len() ==> (#[trigger] ranks[i]) == Some(i)) && ranks.len()
            <= n ==> sequential_scan(ranks, n) == Ok::<bool, VortexError>(true),
        sequential_scan(ranks, n) == Ok::<bool, VortexError>(false) ==> exists|i: int|
            0 <= i < ranks.len() && (#[trigger] ranks[i]) != Some(i),
    decreases ranks.len(),
{
    if ranks.len() > 0 {
        let front = ranks.drop_last();
        assert forall|i: int| 0 <= i < front.len() implies (#[trigger] front[i]) is Some by {
            assert(ranks[i] is Some);
        }
        lemma_scan_in_sequence(front, n);
        assert(ranks.last() == ranks[ranks.len() - 1]);
        if forall|i: int| 0 <= i < ranks.len() ==> (#[trigger] ranks[i]) == Some(i) {
            assert forall|i: int| 0 <= i < front.len() implies (#[trigger] front[i]) == Some(i) by {
                assert(ranks[i] == Some(i));
            }
        }
        if sequential_scan(front, n) == Ok::<bool, VortexError>(false) {
            let i = choose|i: int| 0 <= i < front.len() && (#[trigger] front[i]) != Some(i);
            assert(ranks[i] != Some(i));
        }
    }
}

/// The range of rows that the take copies, if the filter is one contiguous run and the ranks are
/// `0, 1, 2, ..`.
pub fn contiguous_sequential_take_range<P: IntegerPType>(
    filter: &Mask,
    ranks: &[P],
    filtered_len: usize,
) -> (r: VortexResult<Option<(usize, usize)>>)
    requires
        filter.wf(),
        filtered_len == count_true(filter@),
    ensures
        if is_contiguous(filter@) {
            match sequential_scan(valid_ranks(ranks@), filtered_len) {
                Err(e) => r == Err::<Option<(usize, usize)>, VortexError>(e),
                Ok(false) => r == Ok::<Option<(usize, usize)>, VortexError>(None),
                Ok(true) => {
                    &&& r matches Ok(Some((start, end)))
                    &&& start == true_positions(filter@).first()
                    &&& end == start + ranks@.len()
                    &&& end <= filter@.len()
                },
            }
        } else {
            r == Ok::<Option<(usize, usize)>, VortexError>(None)
        },
{
    let ghost rs = valid_ranks(ranks@);
    proof {
        filter.lemma_len();
    }
    let start: usize = match contiguous_filter_start(filter, filtered_len) {
        Some(start) => start,
        None => return Ok(None),
    };
    let mut i: usize = 0;
    while i < ranks.len()
        invariant
            i <= ranks@.len(),
            rs == valid_ranks(ranks@),
            is_contiguous(filter@),
            sequential_scan(rs.take(i as int), filtered_len) == Ok::<bool, VortexError>(true),
        decreases ranks@.len() - i,
    {
        assert(rs.take(i + 1).drop_last() =~= rs.take(i as int));
        assert(rs.take(i + 1).last() == rs[i as int]);
        let rank: usize = match validate_rank(ranks[i], filtered_len) {
            Ok(rank) => rank,
            Err(e) => {
                proof {
                    lemma_scan_prefix(rs, filtered_len, i + 1);
                }
                return Err(e);
            },
        };
        if rank != i {
            proof {
                lemma_scan_prefix(rs, filtered_len, i + 1);
            }
            return Ok(None);
        }
        i = i + 1;
    }
    assert(rs.take(i as int) =~= rs);
    proof {
        lemma_scan_errors(rs, filtered_len);
        assert(start == true_positions(filter@)[0]);
    }
    Ok(Some((start, start + ranks.len())))
}

/// Copies the values at the given positions.
pub fn gather_values_by_indices<T: FixedWidth>(values: &[T], indices: &[usize]) -> (r: Vec<T>)
    requires
        forall|k: int| 0 <= k < indices@.len() ==> #[trigger] indices@[k] < values@.len(),
    ensures
        r@ == indices@.map_values(|p: usize| values@[p as int]),
{
    let ghost f = |p: usize| values@[p as int];
    let mut out: Vec<T> = Vec::with_capacity(indices.len());
    let mut i: usize = 0;
    while i < indices.len()
        invariant
            i <= indices@.len(),
            forall|k: int| 0 <= k < indices@.len() ==> #[trigger] indices@[k] < values@.len(),
            out@.len() == i,
            forall|k: int| 0 <= k < i ==> #[trigger] out@[k] == values@[indices@[k] as int],
        decreases indices@.len() - i,
    {
        let position: usize = indices[i];
        out.push(values[position]);
        i = i + 1;
    }
    assert(out@ =~= indices@.map_values(|p: usize| values@[p as int]));
    out
}

/// Whether there is a first rank and it is zero; the error of the first rank if it is bad.
pub fn first_rank_is_zero<P: IntegerPType>(ranks: &[P], filtered_len: usize) -> (r: VortexResult<
    bool,
>)
    ensures
        if ranks@.len() == 0 {
            r == Ok::<bool, VortexError>(false)
        } else {
            match rank_error(ranks@[0].as_int(), filtered_len) {
                Some(e) => r == Err::<bool, VortexError>(e),
                None => r == Ok::<bool, VortexError>(ranks@[0].as_int() == 0),
            }
        },
{
    if ranks.len() == 0 {
        return Ok(false);
    }
    match validate_rank(ranks[0], filtered_len) {
        Ok(first) => Ok(first == 0),
        Err(e) => Err(e),
    }
}

} // verus!
