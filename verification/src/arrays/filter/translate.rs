//! Translating ranks into a filtered array to positions in the unfiltered array.

use vstd::prelude::*;

use super::rank::{
    contiguous_filter_start, first_rank_error, lemma_all_null_no_error, lemma_extend_prefix,
    lemma_no_error_in_bounds, nullable_ranks, position_of, translated, translates, u64_ints, valid_ranks,
    validate_rank,
};
use crate::error::VortexResult;
use crate::mask::{
    as_ints, count_true, lemma_count_empty, lemma_count_full, lemma_positions_all_true,
    lemma_positions_sound, true_positions, AllOr, Mask,
};
use crate::native::IntegerPType;

verus! {

/// The first `n` positions from `start` on.
pub open spec fn run_from(start: int, n: int) -> Seq<int> {
    Seq::new(n as nat, |k: int| start + k)
}

/// Translating only looks at positions below the filtered length.
proof fn lemma_translated_agrees(
    ranks: Seq<Option<int>>,
    n: usize,
    left: Seq<int>,
    right: Seq<int>,
)
    requires
        first_rank_error(ranks, n) is None,
        forall|k: int| 0 <= k < n ==> #[trigger] left[k] == right[k],
    ensures
        translated(ranks, left) == translated(ranks, right),
{
    lemma_no_error_in_bounds(ranks, n);
    assert(translated(ranks, left) =~= translated(ranks, right));
}

/// One more translated rank extends the translation of the ranks before it.
proof fn lemma_push_translated(
    out: Seq<u64>,
    value: u64,
    ranks: Seq<Option<int>>,
    positions: Seq<int>,
    i: int,
)
    requires
        0 <= i < ranks.len(),
        u64_ints(out) == translated(ranks.take(i), positions),
        value == position_of(ranks[i], positions),
    ensures
        u64_ints(out.push(value)) == translated(ranks.take(i + 1), positions),
{
    assert(out.len() == i) by {
        assert(u64_ints(out).len() == i);
    }
    assert forall|j: int| 0 <= j < i implies out[j] == position_of(
        #[trigger] ranks[j],
        positions,
    ) by {
        assert(u64_ints(out)[j] == out[j] as int);
        assert(ranks.take(i)[j] == ranks[j]);
        assert(translated(ranks.take(i), positions)[j] == position_of(ranks.take(i)[j], positions));
    }
    assert(u64_ints(out.push(value)) =~= translated(ranks.take(i + 1), positions));
}

/// Translates ranks into a filter that selects one run of rows from `start` on.
pub fn translate_nullable_ranks_with_offset<P: IntegerPType>(
    ranks: &[P],
    indices_validity: &Mask,
    filtered_len: usize,
    start: usize,
) -> (r: VortexResult<Vec<u64>>)
    requires
        indices_validity@.len() == ranks@.len(),
        start + filtered_len <= usize::MAX,
    ensures
        translates(
            nullable_ranks(ranks@, indices_validity@),
            run_from(start as int, filtered_len as int),
            filtered_len,
            r,
        ),
{
    let ghost rs = nullable_ranks(ranks@, indices_validity@);
    let ghost positions = run_from(start as int, filtered_len as int);
    let mut out: Vec<u64> = Vec::with_capacity(ranks.len());
    let mut i: usize = 0;
    assert(u64_ints(out@) =~= translated(rs.take(0), positions));
    while i < ranks.len()
        invariant
            i <= ranks@.len(),
            indices_validity@.len() == ranks@.len(),
            start + filtered_len <= usize::MAX,
            rs == nullable_ranks(ranks@, indices_validity@),
            positions == run_from(start as int, filtered_len as int),
            first_rank_error(rs.take(i as int), filtered_len) is None,
            u64_ints(out@) == translated(rs.take(i as int), positions),
        decreases ranks@.len() - i,
    {
        proof {
            lemma_extend_prefix(rs, filtered_len, i as int);
        }
        let translated_rank: u64 = if indices_validity.value(i) {
            let rank: usize = match validate_rank(ranks[i], filtered_len) {
                Ok(rank) => rank,
                Err(e) => return Err(e),
            };
            (start + rank) as u64
        } else {
            0
        };
        proof {
            lemma_push_translated(out@, translated_rank, rs, positions, i as int);
        }
        out.push(translated_rank);
        i = i + 1;
    }
    assert(rs.take(i as int) =~= rs);
    Ok(out)
}

/// Translates ranks into a filter that selects every row.
pub fn translate_nullable_ranks_identity<P: IntegerPType>(
    ranks: &[P],
    indices_validity: &Mask,
    filtered_len: usize,
) -> (r: VortexResult<Vec<u64>>)
    requires
        indices_validity@.len() == ranks@.len(),
    ensures
        translates(
            nullable_ranks(ranks@, indices_validity@),
            run_from(0, filtered_len as int),
            filtered_len,
            r,
        ),
{
    let ghost rs = nullable_ranks(ranks@, indices_validity@);
    let ghost positions = run_from(0, filtered_len as int);
    let mut out: Vec<u64> = Vec::with_capacity(ranks.len());
    let mut i: usize = 0;
    assert(u64_ints(out@) =~= translated(rs.take(0), positions));
    while i < ranks.len()
        invariant
            i <= ranks@.len(),
            indices_validity@.len() == ranks@.len(),
            rs == nullable_ranks(ranks@, indices_validity@),
            positions == run_from(0, filtered_len as int),
            first_rank_error(rs.take(i as int), filtered_len) is None,
            u64_ints(out@) == translated(rs.take(i as int), positions),
        decreases ranks@.len() - i,
    {
        proof {
            lemma_extend_prefix(rs, filtered_len, i as int);
        }
        let translated_rank: u64 = if indices_validity.value(i) {
            let rank: usize = match validate_rank(ranks[i], filtered_len) {
                Ok(rank) => rank,
                Err(e) => return Err(e),
            };
            rank as u64
        } else {
            0
        };
        proof {
            lemma_push_translated(out@, translated_rank, rs, positions, i as int);
        }
        out.push(translated_rank);
        i = i + 1;
    }
    assert(rs.take(i as int) =~= rs);
    Ok(out)
}

/// Translates ranks into a filter given by the positions it selects.
pub fn translate_nullable_ranks_with_indices<P: IntegerPType>(
    ranks: &[P],
    indices_validity: &Mask,
    filtered_len: usize,
    filter_indices: &[usize],
) -> (r: VortexResult<Vec<u64>>)
    requires
        indices_validity@.len() == ranks@.len(),
        filter_indices@.len() == filtered_len,
    ensures
        translates(
            nullable_ranks(ranks@, indices_validity@),
            as_ints(filter_indices@),
            filtered_len,
            r,
        ),
{
    let ghost rs = nullable_ranks(ranks@, indices_validity@);
    let ghost positions = as_ints(filter_indices@);
    let mut out: Vec<u64> = Vec::with_capacity(ranks.len());
    let mut i: usize = 0;
    assert(u64_ints(out@) =~= translated(rs.take(0), positions));
    while i < ranks.len()
        invariant
            i <= ranks@.len(),
            indices_validity@.len() == ranks@.len(),
            filter_indices@.len() == filtered_len,
            rs == nullable_ranks(ranks@, indices_validity@),
            positions == as_ints(filter_indices@),
            first_rank_error(rs.take(i as int), filtered_len) is None,
            u64_ints(out@) == translated(rs.take(i as int), positions),
        decreases ranks@.len() - i,
    {
        proof {
            lemma_extend_prefix(rs, filtered_len, i as int);
        }
        let translated_rank: u64 = if indices_validity.value(i) {
            let rank: usize = match validate_rank(ranks[i], filtered_len) {
                Ok(rank) => rank,
                Err(e) => return Err(e),
            };
            filter_indices[rank] as u64
        } else {
            0
        };
        proof {
            lemma_push_translated(out@, translated_rank, rs, positions, i as int);
        }
        out.push(translated_rank);
        i = i + 1;
    }
    assert(rs.take(i as int) =~= rs);
    Ok(out)
}

/// Translates ranks, some of which may be null, into positions of the unfiltered array.
///
/// Null ranks translate to position zero. The filter selects at least one row, unless there are
/// ranks and every one of them is null.
pub fn translate_nullable_ranks_fast<P: IntegerPType>(
    filter: &Mask,
    ranks: &[P],
    indices_validity: &Mask,
    filtered_len: usize,
) -> (r: VortexResult<Vec<u64>>)
    requires
        filter.wf(),
        indices_validity.wf(),
        indices_validity@.len() == ranks@.len(),
        filtered_len == count_true(filter@),
        filtered_len > 0 || (ranks@.len() > 0 && count_true(indices_validity@) == 0),
    ensures
        translates(
            nullable_ranks(ranks@, indices_validity@),
            true_positions(filter@),
            filtered_len,
            r,
        ),
{
    let ghost rs = nullable_ranks(ranks@, indices_validity@);
    let ghost positions = true_positions(filter@);
    proof {
        lemma_count_full(indices_validity@);
        lemma_count_empty(indices_validity@);
        lemma_positions_sound(filter@);
        filter.lemma_len();
    }
    if indices_validity.all_true() {
        assert(rs =~= valid_ranks(ranks@));
        return translate_ranks_fast(filter, ranks, filtered_len);
    }
    if indices_validity.all_false() {
        let zeros = zeroed_positions(ranks.len());
        proof {
            lemma_all_null_no_error(rs, filtered_len);
            assert(u64_ints(zeros@) =~= translated(rs, positions));
        }
        return Ok(zeros);
    }
    if let Some(start) = contiguous_filter_start(filter, filtered_len) {
        let r = translate_nullable_ranks_with_offset(ranks, indices_validity, filtered_len, start);
        proof {
            if first_rank_error(rs, filtered_len) is None {
                lemma_translated_agrees(
                    rs,
                    filtered_len,
                    run_from(start as int, filtered_len as int),
                    positions,
                );
            }
        }
        return r;
    }
    match filter.indices() {
        AllOr::All => {
            let r = translate_nullable_ranks_identity(ranks, indices_validity, filtered_len);
            proof {
                lemma_positions_all_true(filter@);
                if first_rank_error(rs, filtered_len) is None {
                    lemma_translated_agrees(
                        rs,
                        filtered_len,
                        run_from(0, filtered_len as int),
                        positions,
                    );
                }
            }
            r
        },
        AllOr::Nothing => {
            assert(false) by {
                lemma_count_empty(filter@);
            }
            Ok(Vec::new())
        },
        AllOr::Mixed(filter_indices) => {
            assert(as_ints(filter_indices@).len() == filter_indices@.len());
            translate_nullable_ranks_with_indices(
                ranks,
                indices_validity,
                filtered_len,
                filter_indices,
            )
        },
    }
}

/// A list of `len` zeros.
fn zeroed_positions(len: usize) -> (r: Vec<u64>)
    ensures
        r@ == Seq::new(len as nat, |i: int| 0u64),
{
    let mut out: Vec<u64> = Vec::with_capacity(len);
    let mut i: usize = 0;
    while i < len
        invariant
            i <= len,
            out@ == Seq::new(i as nat, |j: int| 0u64),
        decreases len - i,
    {
        out.push(0);
        i = i + 1;
        assert(out@ =~= Seq::new(i as nat, |j: int| 0u64));
    }
    out
}

/// Translates ranks without nulls into positions of the unfiltered array.
pub fn translate_ranks_fast<P: IntegerPType>(
    filter: &Mask,
    ranks: &[P],
    filtered_len: usize,
) -> (r: VortexResult<Vec<u64>>)
    requires
        filter.wf(),
        filtered_len == count_true(filter@),
        filtered_len > 0,
    ensures
        translates(valid_ranks(ranks@), true_positions(filter@), filtered_len, r),
{
    let ghost rs = valid_ranks(ranks@);
    let ghost positions = true_positions(filter@);
    proof {
        lemma_positions_sound(filter@);
        filter.lemma_len();
    }
    let mut out: Vec<u64> = Vec::with_capacity(ranks.len());
    assert(u64_ints(out@) =~= translated(rs.take(0), positions));
    let mut i: usize = 0;
    if let Some(start) = contiguous_filter_start(filter, filtered_len) {
        while i < ranks.len()
            invariant
                i <= ranks@.len(),
                rs == valid_ranks(ranks@),
                start + filtered_len <= usize::MAX,
                forall|k: int| 0 <= k < filtered_len ==> #[trigger] positions[k] == start + k,
                first_rank_error(rs.take(i as int), filtered_len) is None,
                u64_ints(out@) == translated(rs.take(i as int), positions),
            decreases ranks@.len() - i,
        {
            proof {
                lemma_extend_prefix(rs, filtered_len, i as int);
            }
            let rank: usize = match validate_rank(ranks[i], filtered_len) {
                Ok(rank) => rank,
                Err(e) => return Err(e),
            };
            let position: u64 = (start + rank) as u64;
            proof {
                lemma_push_translated(out@, position, rs, positions, i as int);
            }
            out.push(position);
            i = i + 1;
        }
    } else {
        match filter.indices() {
            AllOr::All => {
                proof {
                    lemma_positions_all_true(filter@);
                }
                while i < ranks.len()
                    invariant
                        i <= ranks@.len(),
                        rs == valid_ranks(ranks@),
                        forall|k: int| 0 <= k < filtered_len ==> #[trigger] positions[k] == k,
                        first_rank_error(rs.take(i as int), filtered_len) is None,
                        u64_ints(out@) == translated(rs.take(i as int), positions),
                    decreases ranks@.len() - i,
                {
                    proof {
                        lemma_extend_prefix(rs, filtered_len, i as int);
                    }
                    let rank: usize = match validate_rank(ranks[i], filtered_len) {
                        Ok(rank) => rank,
                        Err(e) => return Err(e),
                    };
                    let position: u64 = rank as u64;
                    proof {
                        lemma_push_translated(out@, position, rs, positions, i as int);
                    }
                    out.push(position);
                    i = i + 1;
                }
            },
            AllOr::Nothing => {
                assert(false) by {
                    lemma_count_empty(filter@);
                }
            },
            AllOr::Mixed(filter_indices) => {
                assert(as_ints(filter_indices@).len() == filter_indices@.len());
                while i < ranks.len()
                    invariant
                        i <= ranks@.len(),
                        rs == valid_ranks(ranks@),
                        filter_indices@.len() == filtered_len,
                        as_ints(filter_indices@) == positions,
                        first_rank_error(rs.take(i as int), filtered_len) is None,
                        u64_ints(out@) == translated(rs.take(i as int), positions),
                    decreases ranks@.len() - i,
                {
                    proof {
                        lemma_extend_prefix(rs, filtered_len, i as int);
                    }
                    let rank: usize = match validate_rank(ranks[i], filtered_len) {
                        Ok(rank) => rank,
                        Err(e) => return Err(e),
                    };
                    let position: u64 = filter_indices[rank] as u64;
                    assert(as_ints(filter_indices@)[rank as int] == position);
                    proof {
                        lemma_push_translated(out@, position, rs, positions, i as int);
                    }
                    out.push(position);
                    i = i + 1;
                }
            },
        }
    }
    assert(rs.take(i as int) =~= rs);
    Ok(out)
}

} // verus!
