//! Selection masks: one bit per row, with fast paths for masks that select everything or nothing.

use vstd::prelude::*;

verus! {

/// The positions at which `bits` is true, in increasing order.
pub open spec fn true_positions(bits: Seq<bool>) -> Seq<int>
    decreases bits.len(),
{
    if bits.len() == 0 {
        Seq::empty()
    } else if bits.last() {
        true_positions(bits.drop_last()).push(bits.len() - 1)
    } else {
        true_positions(bits.drop_last())
    }
}

/// How many bits are true.
pub open spec fn count_true(bits: Seq<bool>) -> nat {
    true_positions(bits).len()
}

/// The elements of `items` that `bits` selects, in order.
pub open spec fn select<T>(items: Seq<T>, bits: Seq<bool>) -> Seq<T> {
    true_positions(bits).map_values(|p: int| items[p])
}

/// Whether the selected rows are one run without gaps.
pub open spec fn is_contiguous(bits: Seq<bool>) -> bool {
    count_true(bits) > 0 && true_positions(bits).last() + 1 - true_positions(bits).first()
        == count_true(bits)
}

/// `true_positions` lists true positions only, in strictly increasing order.
pub proof fn lemma_positions_sound(bits: Seq<bool>)
    ensures
        true_positions(bits).len() <= bits.len(),
        forall|k: int|
            0 <= k < true_positions(bits).len() ==> 0 <= #[trigger] true_positions(bits)[k]
                < bits.len() && bits[true_positions(bits)[k]],
        forall|j: int, k: int|
            0 <= j < k < true_positions(bits).len() ==> #[trigger] true_positions(bits)[j]
                < #[trigger] true_positions(bits)[k],
    decreases bits.len(),
{
    if bits.len() > 0 {
        lemma_positions_sound(bits.drop_last());
        let rest = true_positions(bits.drop_last());
        assert forall|k: int| 0 <= k < true_positions(bits).len() implies 0
            <= #[trigger] true_positions(bits)[k] < bits.len()
            && bits[true_positions(bits)[k]] by {
            if k < rest.len() {
                assert(bits.drop_last()[rest[k]]);
            }
        }
    }
}

/// Every true position is listed by `true_positions`.
pub proof fn lemma_positions_complete(bits: Seq<bool>, p: int)
    requires
        0 <= p < bits.len(),
        bits[p],
    ensures
        true_positions(bits).contains(p),
    decreases bits.len(),
{
    if p == bits.len() - 1 {
        assert(true_positions(bits).last() == p);
    } else {
        lemma_positions_complete(bits.drop_last(), p);
        let rest = true_positions(bits.drop_last());
        let k = choose|k: int| 0 <= k < rest.len() && rest[k] == p;
        assert(true_positions(bits)[k] == p);
    }
}

/// Positions taken from a strictly increasing list are at least as far apart as their indices.
proof fn lemma_positions_spread(bits: Seq<bool>, j: int, k: int)
    requires
        0 <= j <= k < true_positions(bits).len(),
    ensures
        true_positions(bits)[j] + (k - j) <= true_positions(bits)[k],
    decreases k - j,
{
    lemma_positions_sound(bits);
    if j < k {
        lemma_positions_spread(bits, j, k - 1);
    }
}

/// When the span from the first to the last true bit is as long as the number of true bits, the
/// true bits are one contiguous run.
pub proof fn lemma_positions_contiguous(bits: Seq<bool>)
    requires
        is_contiguous(bits),
    ensures
        forall|k: int|
            0 <= k < count_true(bits) ==> #[trigger] true_positions(bits)[k] == true_positions(
                bits,
            ).first() + k,
{
    let n = count_true(bits) as int;
    assert forall|k: int| 0 <= k < n implies #[trigger] true_positions(bits)[k]
        == true_positions(bits).first() + k by {
        lemma_positions_spread(bits, 0, k);
        lemma_positions_spread(bits, k, n - 1);
    }
}

/// A mask of `n` true bits selects every position.
pub proof fn lemma_positions_all_true(bits: Seq<bool>)
    requires
        forall|i: int| 0 <= i < bits.len() ==> #[trigger] bits[i],
    ensures
        true_positions(bits) == Seq::new(bits.len(), |i: int| i),
    decreases bits.len(),
{
    if bits.len() > 0 {
        lemma_positions_all_true(bits.drop_last());
        assert(bits.last());
        assert(true_positions(bits) =~= Seq::new(bits.len(), |i: int| i));
    } else {
        assert(true_positions(bits) =~= Seq::new(bits.len(), |i: int| i));
    }
}

/// A mask selects as many rows as it is long only if it selects every row.
pub proof fn lemma_count_full(bits: Seq<bool>)
    ensures
        count_true(bits) == bits.len() <==> forall|i: int|
            0 <= i < bits.len() ==> #[trigger] bits[i],
    decreases bits.len(),
{
    lemma_positions_sound(bits);
    if forall|i: int| 0 <= i < bits.len() ==> #[trigger] bits[i] {
        lemma_positions_all_true(bits);
    } else {
        let i = choose|i: int| 0 <= i < bits.len() && !bits[i];
        if bits.last() {
            lemma_count_full(bits.drop_last());
            assert(!bits.drop_last()[i]);
        } else {
            lemma_positions_sound(bits.drop_last());
        }
    }
}

/// A mask selects no row exactly if every bit is false.
pub proof fn lemma_count_empty(bits: Seq<bool>)
    ensures
        count_true(bits) == 0 <==> forall|i: int| 0 <= i < bits.len() ==> !#[trigger] bits[i],
{
    lemma_positions_sound(bits);
    if exists|i: int| 0 <= i < bits.len() && bits[i] {
        let i = choose|i: int| 0 <= i < bits.len() && bits[i];
        lemma_positions_complete(bits, i);
    }
    if count_true(bits) > 0 {
        assert(bits[true_positions(bits)[0]]);
    }
}

/// Each true bit counts for one.
pub proof fn lemma_count_push(bits: Seq<bool>, bit: bool)
    ensures
        count_true(Seq::<bool>::empty()) == 0,
        count_true(bits.push(bit)) == count_true(bits) + (if bit {
            1nat
        } else {
            0nat
        }),
{
    assert(bits.push(bit).drop_last() =~= bits);
}

/// A true bit is listed behind as many positions as there are true bits before it.
pub proof fn lemma_rank_of_position(bits: Seq<bool>, p: int)
    requires
        0 <= p < bits.len(),
        bits[p],
    ensures
        count_true(bits.take(p)) < count_true(bits),
        true_positions(bits)[count_true(bits.take(p)) as int] == p,
    decreases bits.len(),
{
    let front = bits.drop_last();
    if p == front.len() {
        assert(bits.take(p) =~= front);
    } else {
        lemma_rank_of_position(front, p);
        assert(front.take(p) =~= bits.take(p));
    }
}

/// Selecting keeps the items at true bits and no others, each behind as many items as there are
/// true bits before it.
pub proof fn lemma_selected<T>(items: Seq<T>, bits: Seq<bool>, p: int)
    requires
        0 <= p < bits.len(),
        bits[p],
    ensures
        select(items, bits).len() == count_true(bits),
        count_true(bits.take(p)) < select(items, bits).len(),
        select(items, bits)[count_true(bits.take(p)) as int] == items[p],
{
    lemma_rank_of_position(bits, p);
}

/// One run of true bits is a run of positions.
pub proof fn lemma_run_positions(bits: Seq<bool>, start: int, n: int)
    requires
        0 <= start,
        0 <= n,
        start + n <= bits.len(),
        forall|i: int| 0 <= i < bits.len() ==> #[trigger] bits[i] == (start <= i < start + n),
    ensures
        true_positions(bits) == Seq::new(n as nat, |k: int| start + k),
        n > 0 ==> is_contiguous(bits) && true_positions(bits).first() == start,
        n == 0 ==> !is_contiguous(bits),
        count_true(bits) == n,
    decreases bits.len(),
{
    if bits.len() > 0 {
        let front = bits.drop_last();
        assert(bits[bits.len() - 1] == bits.last());
        assert forall|i: int| 0 <= i < front.len() implies #[trigger] front[i] == bits[i] by {}
        if n == 0 {
            lemma_run_positions(front, 0, 0);
        } else if start + n < bits.len() {
            lemma_run_positions(front, start, n);
        } else {
            lemma_run_positions(front, start, n - 1);
        }
    }
    assert(true_positions(bits) =~= Seq::new(n as nat, |k: int| start + k));
}

/// A selection without gaps is one run of true bits.
pub proof fn lemma_contiguous_run(bits: Seq<bool>, i: int)
    requires
        is_contiguous(bits),
        0 <= i < bits.len(),
    ensures
        ({
            let start = true_positions(bits).first();
            bits[i] == (start <= i < start + count_true(bits))
        }),
{
    let start = true_positions(bits).first();
    lemma_positions_sound(bits);
    lemma_positions_contiguous(bits);
    if bits[i] {
        lemma_positions_complete(bits, i);
        let k = choose|k: int| 0 <= k < true_positions(bits).len() && true_positions(bits)[k] == i;
        assert(true_positions(bits)[k] == start + k);
    } else if start <= i < start + count_true(bits) {
        assert(true_positions(bits)[i - start] == i);
    }
}

/// What a mask holds, with the two uniform cases told apart.
pub enum AllOr<T> {
    /// Every row is selected.
    All,
    /// No row is selected.
    Nothing,
    /// Some rows are selected and some are not.
    Mixed(T),
}

/// A mask that is neither all true nor all false.
pub struct MaskValues {
    bits: Vec<bool>,
    indices: Vec<usize>,
}

impl MaskValues {
    pub closed spec fn bits_view(self) -> Seq<bool> {
        self.bits@
    }

    pub closed spec fn wf(self) -> bool {
        &&& self.indices@.len() == true_positions(self.bits@).len()
        &&& forall|k: int|
            0 <= k < self.indices@.len() ==> #[trigger] self.indices@[k] == true_positions(
                self.bits@,
            )[k]
        &&& 0 < self.indices@.len() < self.bits@.len()
    }
}

/// A selection of rows.
pub enum Mask {
    /// Selects each of the given number of rows.
    AllTrue(usize),
    /// Selects none of the given number of rows.
    AllFalse(usize),
    /// Selects some of the rows.
    Values(MaskValues),
}

impl View for Mask {
    type V = Seq<bool>;

    open spec fn view(&self) -> Seq<bool> {
        match self {
            Mask::AllTrue(len) => Seq::new(*len as nat, |i: int| true),
            Mask::AllFalse(len) => Seq::new(*len as nat, |i: int| false),
            Mask::Values(values) => values.bits_view(),
        }
    }
}

/// The indices as mathematical integers.
pub open spec fn as_ints(indices: Seq<usize>) -> Seq<int> {
    indices.map_values(|i: usize| i as int)
}

impl Mask {
    /// The mask is stored in its normal form: `Values` is used only for mixed masks, and its list
    /// of selected positions agrees with its bits.
    pub open spec fn wf(self) -> bool {
        match self {
            Mask::AllTrue(_) => true,
            Mask::AllFalse(_) => true,
            Mask::Values(values) => values.wf(),
        }
    }

    /// The number of rows fits in a `usize`.
    pub proof fn lemma_len(self)
        ensures
            self@.len() <= usize::MAX,
    {
        match self {
            Mask::Values(values) => {
                assert(values.bits.len() == values.bits@.len());
            },
            _ => {},
        }
    }

    /// The mask that selects row `i` exactly if `bits[i]`.
    pub fn from_bits(bits: Vec<bool>) -> (mask: Mask)
        ensures
            mask.wf(),
            mask@ == bits@,
            bits@.len() > 0 ==> (mask is AllTrue <==> count_true(bits@) == bits@.len()),
            mask is AllFalse <==> count_true(bits@) == 0,
    {
        let mut indices: Vec<usize> = Vec::new();
        let mut i: usize = 0;
        while i < bits.len()
            invariant
                i <= bits@.len(),
                as_ints(indices@) == true_positions(bits@.take(i as int)),
            decreases bits@.len() - i,
        {
            assert(bits@.take(i + 1).drop_last() =~= bits@.take(i as int));
            if bits[i] {
                let ghost before = indices@;
                indices.push(i);
                assert(as_ints(indices@) =~= as_ints(before).push(i as int));
            }
            i = i + 1;
        }
        assert(bits@.take(i as int) =~= bits@);
        proof {
            lemma_count_full(bits@);
            lemma_count_empty(bits@);
            lemma_positions_sound(bits@);
        }
        if indices.len() == 0 {
            assert(Seq::new(bits@.len(), |i: int| false) =~= bits@);
            Mask::AllFalse(bits.len())
        } else if indices.len() == bits.len() {
            assert(Seq::new(bits@.len(), |i: int| true) =~= bits@);
            Mask::AllTrue(bits.len())
        } else {
            assert forall|k: int| 0 <= k < indices@.len() implies #[trigger] indices@[k]
                == true_positions(bits@)[k] by {
                assert(as_ints(indices@)[k] == indices@[k] as int);
            }
            Mask::Values(MaskValues { bits, indices })
        }
    }

    /// The mask over `len` rows that selects the rows in `indices`, which are given in strictly
    /// increasing order.
    pub fn from_indices(len: usize, indices: Vec<usize>) -> (mask: Mask)
        requires
            forall|j: int, k: int|
                0 <= j < k < indices@.len() ==> #[trigger] indices@[j] < #[trigger] indices@[k],
            forall|k: int| 0 <= k < indices@.len() ==> #[trigger] indices@[k] < len,
        ensures
            mask.wf(),
            mask@.len() == len,
            forall|i: int|
                0 <= i < len ==> #[trigger] mask@[i] == indices@.contains(i as usize),
    {
        let mut bits: Vec<bool> = Vec::new();
        let mut k: usize = 0;
        let mut i: usize = 0;
        while i < len
            invariant
                i <= len,
                k <= indices@.len(),
                bits@.len() == i,
                forall|a: int, b: int|
                    0 <= a < b < indices@.len() ==> #[trigger] indices@[a] < #[trigger] indices@[b],
                forall|a: int| 0 <= a < k ==> #[trigger] indices@[a] < i,
                forall|a: int| k <= a < indices@.len() ==> #[trigger] indices@[a] >= i,
                forall|p: int| 0 <= p < i ==> #[trigger] bits@[p] == indices@.contains(p as usize),
            decreases len - i,
        {
            let selected = k < indices.len() && indices[k] == i;
            assert(selected == indices@.contains(i)) by {
                if indices@.contains(i) {
                    let a = choose|a: int| 0 <= a < indices@.len() && indices@[a] == i;
                    assert(a >= k);
                    if a > k {
                        assert(indices@[k as int] < indices@[a]);
                    }
                }
            }
            bits.push(selected);
            if selected {
                k = k + 1;
            }
            i = i + 1;
        }
        Mask::from_bits(bits)
    }

    /// The mask over `len` rows that selects the rows in the half-open ranges `slices`.
    pub fn from_slices(len: usize, slices: Vec<(usize, usize)>) -> (mask: Mask)
        ensures
            mask.wf(),
            mask@.len() == len,
            forall|i: int|
                0 <= i < len ==> #[trigger] mask@[i] == exists|k: int|
                    0 <= k < slices@.len() && (#[trigger] slices@[k]).0 <= i < slices@[k].1,
    {
        let mut bits: Vec<bool> = Vec::new();
        let mut i: usize = 0;
        while i < len
            invariant
                i <= len,
                bits@.len() == i,
                forall|p: int|
                    0 <= p < i ==> #[trigger] bits@[p] == exists|k: int|
                        0 <= k < slices@.len() && (#[trigger] slices@[k]).0 <= p < slices@[k].1,
            decreases len - i,
        {
            let mut selected = false;
            let mut k: usize = 0;
            while k < slices.len()
                invariant
                    k <= slices@.len(),
                    selected == exists|a: int|
                        0 <= a < k && (#[trigger] slices@[a]).0 <= i < slices@[a].1,
                decreases slices@.len() - k,
            {
                let ghost before = selected;
                let inside = slices[k].0 <= i && i < slices[k].1;
                selected = selected || inside;
                assert(selected == exists|a: int|
                    0 <= a < k + 1 && (#[trigger] slices@[a]).0 <= i < slices@[a].1) by {
                    if inside {
                        assert(slices@[k as int].0 <= i < slices@[k as int].1);
                    }
                }
                k = k + 1;
            }
            bits.push(selected);
            i = i + 1;
        }
        Mask::from_bits(bits)
    }

    /// The number of rows.
    pub fn len(&self) -> (n: usize)
        ensures
            n == self@.len(),
    {
        match self {
            Mask::AllTrue(len) => *len,
            Mask::AllFalse(len) => *len,
            Mask::Values(values) => values.bits.len(),
        }
    }

    /// The number of selected rows.
    pub fn true_count(&self) -> (n: usize)
        requires
            self.wf(),
        ensures
            n == count_true(self@),
    {
        proof {
            lemma_count_full(self@);
            lemma_count_empty(self@);
        }
        match self {
            Mask::AllTrue(len) => *len,
            Mask::AllFalse(_) => 0,
            Mask::Values(values) => values.indices.len(),
        }
    }

    /// Whether every row is selected.
    pub fn all_true(&self) -> (b: bool)
        requires
            self.wf(),
        ensures
            b == (count_true(self@) == self@.len()),
    {
        proof {
            lemma_count_full(self@);
            lemma_count_empty(self@);
        }
        match self {
            Mask::AllTrue(_) => true,
            Mask::AllFalse(len) => *len == 0,
            Mask::Values(_) => false,
        }
    }

    /// Whether no row is selected.
    pub fn all_false(&self) -> (b: bool)
        requires
            self.wf(),
        ensures
            b == (count_true(self@) == 0),
    {
        proof {
            lemma_count_full(self@);
            lemma_count_empty(self@);
        }
        match self {
            Mask::AllTrue(len) => *len == 0,
            Mask::AllFalse(_) => true,
            Mask::Values(_) => false,
        }
    }

    /// Whether row `index` is selected.
    pub fn value(&self, index: usize) -> (b: bool)
        requires
            index < self@.len(),
        ensures
            b == self@[index as int],
    {
        match self {
            Mask::AllTrue(_) => true,
            Mask::AllFalse(_) => false,
            Mask::Values(values) => values.bits[index],
        }
    }

    /// The first selected row.
    pub fn first(&self) -> (p: Option<usize>)
        requires
            self.wf(),
        ensures
            p is Some <==> count_true(self@) > 0,
            p matches Some(i) ==> i == true_positions(self@).first(),
    {
        proof {
            lemma_count_full(self@);
            lemma_count_empty(self@);
        }
        match self {
            Mask::AllTrue(len) => {
                proof {
                    lemma_positions_all_true(self@);
                }
                if *len > 0 {
                    Some(0)
                } else {
                    None
                }
            },
            Mask::AllFalse(_) => None,
            Mask::Values(values) => Some(values.indices[0]),
        }
    }

    /// The last selected row.
    pub fn last(&self) -> (p: Option<usize>)
        requires
            self.wf(),
        ensures
            p is Some <==> count_true(self@) > 0,
            p matches Some(i) ==> i == true_positions(self@).last(),
    {
        proof {
            lemma_count_full(self@);
            lemma_count_empty(self@);
        }
        match self {
            Mask::AllTrue(len) => {
                proof {
                    lemma_positions_all_true(self@);
                }
                if *len > 0 {
                    Some(*len - 1)
                } else {
                    None
                }
            },
            Mask::AllFalse(_) => None,
            Mask::Values(values) => Some(values.indices[values.indices.len() - 1]),
        }
    }

    /// The selected positions, unless the mask is uniform.
    pub fn indices(&self) -> (r: AllOr<&[usize]>)
        requires
            self.wf(),
        ensures
            match r {
                AllOr::All => self is AllTrue,
                AllOr::Nothing => self is AllFalse,
                AllOr::Mixed(indices) => self is Values && as_ints(indices@) == true_positions(
                    self@,
                ),
            },
    {
        match self {
            Mask::AllTrue(_) => AllOr::All,
            Mask::AllFalse(_) => AllOr::Nothing,
            Mask::Values(values) => {
                assert(as_ints(values.indices@) =~= true_positions(self@));
                AllOr::Mixed(values.indices.as_slice())
            },
        }
    }

    /// The position of the `k`-th selected row.
    pub fn position(&self, k: usize) -> (p: usize)
        requires
            self.wf(),
            k < count_true(self@),
        ensures
            p == true_positions(self@)[k as int],
    {
        match self {
            Mask::AllTrue(_) => {
                proof {
                    lemma_positions_all_true(self@);
                }
                k
            },
            Mask::AllFalse(_) => {
                assert(false) by {
                    lemma_count_empty(self@);
                }
                0
            },
            Mask::Values(values) => values.indices[k],
        }
    }

}

impl Clone for Mask {
    fn clone(&self) -> (r: Self)
        ensures
            r@ == self@,
            self.wf() ==> r.wf(),
            r is AllTrue == self is AllTrue,
            r is AllFalse == self is AllFalse,
    {
        match self {
            Mask::AllTrue(len) => Mask::AllTrue(*len),
            Mask::AllFalse(len) => Mask::AllFalse(*len),
            Mask::Values(values) => {
                let bits = values.bits.clone();
                let indices = values.indices.clone();
                assert(bits@ =~= values.bits@);
                assert(indices@ =~= values.indices@);
                Mask::Values(MaskValues { bits, indices })
            },
        }
    }
}

/// A mask of one kind only selects all rows or none.
pub proof fn lemma_mask_rows(mask: Mask, i: int)
    requires
        0 <= i < mask@.len(),
    ensures
        mask matches Mask::AllTrue(len) ==> mask@.len() == len && mask@[i],
        mask matches Mask::AllFalse(len) ==> mask@.len() == len && !mask@[i],
{
}

} // verus!
