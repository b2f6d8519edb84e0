//! Selections of bands by their position.
use vstd::prelude::*;
use itertools::Itertools;
use vstd::std_specs::iter::IteratorSpec;
use std::collections::HashSet;
use std::ops::Range;

verus! {

/// What a selection says: the positions that it lists, and whether they are
/// the ones to keep or the ones to drop.
pub ghost struct Selection {
    pub indexes: Seq<usize>,
    pub drop: bool,
}

/// The positions below `len` that `dropped` does not list, in ascending
/// order.
pub open spec fn complement(dropped: Seq<usize>, len: nat) -> Seq<usize>
    decreases len,
{
    if len == 0 {
        Seq::empty()
    } else {
        let rest = complement(dropped, (len - 1) as nat);
        if dropped.contains((len - 1) as usize) {
            rest
        } else {
            rest.push((len - 1) as usize)
        }
    }
}

/// The positions from `start` up to, and without, `end`.
pub open spec fn range_seq(start: usize, end: usize) -> Seq<usize> {
    Seq::new(
        if start <= end {
            (end - start) as nat
        } else {
            0
        },
        |i: int| (start + i) as usize,
    )
}

/// `complement` lists exactly the positions below `len` that are not
/// dropped, each once and in ascending order.
pub proof fn lemma_complement(dropped: Seq<usize>, len: nat)
    requires
        len <= usize::MAX,
    ensures
        forall|i: usize| #[trigger]
            complement(dropped, len).contains(i) <==> i < len && !dropped.contains(i),
        forall|j: int, k: int|
            0 <= j < k < complement(dropped, len).len() ==> complement(dropped, len)[j]
                < complement(dropped, len)[k],
        complement(dropped, len).len() <= len,
    decreases len,
{
    if len > 0 {
        let rest = complement(dropped, (len - 1) as nat);
        let last = (len - 1) as usize;
        lemma_complement(dropped, (len - 1) as nat);
        let c = complement(dropped, len);
        if dropped.contains(last) {
            assert(c == rest);
        } else {
            assert(c == rest.push(last));
            assert(c[c.len() - 1] == last);
            assert forall|i: usize| #[trigger] c.contains(i) <==> i < len && !dropped.contains(
                i,
            ) by {
                if c.contains(i) {
                    let k = choose|k: int| 0 <= k < c.len() && c[k] == i;
                    if k < rest.len() {
                        assert(rest[k] == i);
                        assert(rest.contains(i));
                    }
                }
                if i < len && !dropped.contains(i) {
                    if i == last {
                        assert(c[c.len() - 1] == i);
                    } else {
                        assert(rest.contains(i));
                        let k = choose|k: int| 0 <= k < rest.len() && rest[k] == i;
                        assert(c[k] == i);
                    }
                }
            }
            assert forall|j: int, k: int| 0 <= j < k < c.len() implies c[j] < c[k] by {
                if k == c.len() - 1 {
                    assert(rest.contains(rest[j]));
                }
            }
        }
    }
}

impl Selection {
    /// The positions that the selection picks in a collection of `len`
    /// items: the listed ones as they are listed, or, for a selection that
    /// drops, all the others in ascending order.
    pub open spec fn resolve(self, len: nat) -> Seq<usize> {
        if self.drop {
            complement(self.indexes, len)
        } else {
            self.indexes
        }
    }

    /// How many positions the selection picks in a collection of `len`
    /// items.
    pub open spec fn count(self, len: nat) -> nat {
        self.resolve(len).len()
    }

    /// Every picked position is a position of a collection of `len` items.
    pub open spec fn in_range(self, len: nat) -> bool {
        forall|k: int| 0 <= k < self.resolve(len).len() ==> self.resolve(len)[k] < len
    }
}

/// A selection of items of a collection by position: either the listed
/// positions, or all but the listed ones.
#[derive(Clone, Debug)]
pub struct Indexes {
    selection: Vec<usize>,
    drop: bool,
}

impl View for Indexes {
    type V = Selection;

    closed spec fn view(&self) -> Selection {
        Selection { indexes: self.selection@, drop: self.drop }
    }
}

impl Indexes {
    /// The selection of the listed positions, or of all but them where
    /// `drop` is set.
    pub fn new(selection: Vec<usize>, drop: bool) -> (r: Self)
        ensures
            r@ == (Selection { indexes: selection@, drop }),
    {
        Indexes { selection, drop }
    }

    /// The positions that the selection picks in a collection of
    /// `collection_len` items.
    ///
    /// For a selection that drops, the listed positions are taken out of
    /// the set of all positions, and what is left is sorted.
    pub fn indexes_from(self, collection_len: usize) -> (r: Vec<usize>)
        ensures
            r@ == self@.resolve(collection_len as nat),
    {
        let idxs = self.selection;
        if self.drop {
            let mut left: HashSet<usize> = HashSet::new();
            let mut i: usize = 0;
            while i < collection_len
                invariant
                    i <= collection_len,
                    forall|x: usize| left@.contains(x) <==> x < i,
                decreases collection_len - i,
            {
                broadcast use vstd::std_specs::hash::group_hash_axioms;

                left.insert(i);
                i = i + 1;
            }
            let mut k: usize = 0;
            while k < idxs.len()
                invariant
                    k <= idxs@.len(),
                    forall|x: usize|
                        left@.contains(x) <==> x < collection_len && !idxs@.take(k as int).contains(
                            x,
                        ),
                decreases idxs@.len() - k,
            {
                broadcast use vstd::std_specs::hash::group_hash_axioms;

                let idx = idxs[k];
                left.remove(&idx);
                assert forall|x: usize|
                    left@.contains(x) <==> x < collection_len && !idxs@.take(k + 1).contains(
                        x,
                    ) by {
                    let before = idxs@.take(k as int);
                    let after = idxs@.take(k + 1);
                    assert(after =~= before.push(idx));
                    if after.contains(x) {
                        let j = choose|j: int| 0 <= j < after.len() && after[j] == x;
                        if j < k {
                            assert(before[j] == x);
                        }
                    }
                    if before.contains(x) {
                        let j = choose|j: int| 0 <= j < before.len() && before[j] == x;
                        assert(after[j] == x);
                    }
                    assert(after[k as int] == idx);
                }
                k = k + 1;
            }
            assert(idxs@.take(idxs@.len() as int) =~= idxs@);
            let kept = set_to_vec(&left);
            let sorted = sorted(kept);
            proof {
                lemma_sorted_is_complement(sorted@, kept@, idxs@, collection_len as nat);
            }
            sorted
        } else {
            idxs
        }
    }

    /// The items of `collection` at the picked positions, in the order in
    /// which the selection picks them.
    pub fn select_from<T: Copy>(self, collection: Vec<T>) -> (r: Vec<T>)
        requires
            self@.in_range(collection@.len()),
        ensures
            r@ == self@.resolve(collection@.len()).map_values(|i: usize| collection@[i as int]),
    {
        let ghost picked = self@.resolve(collection@.len());
        let idxs = self.indexes_from(collection.len());
        let mut selected: Vec<T> = Vec::with_capacity(idxs.len());
        let mut k: usize = 0;
        while k < idxs.len()
            invariant
                k <= idxs@.len(),
                idxs@ == picked,
                forall|j: int| 0 <= j < picked.len() ==> picked[j] < collection@.len(),
                selected@.len() == k,
                forall|j: int| 0 <= j < k ==> selected@[j] == collection@[picked[j] as int],
            decreases idxs@.len() - k,
        {
            selected.push(collection[idxs[k]]);
            k = k + 1;
        }
        assert(selected@ =~= picked.map_values(|i: usize| collection@[i as int]));
        selected
    }

    /// The listed positions.
    pub fn selection(&self) -> (r: &[usize])
        ensures
            r@ == self@.indexes,
    {
        self.selection.as_slice()
    }

    /// Whether the listed positions are the ones to drop.
    pub fn drops(&self) -> (r: bool)
        ensures
            r == self@.drop,
    {
        self.drop
    }

    /// The selection of every item: nothing is dropped.
    pub fn all() -> (r: Self)
        ensures
            r@ == (Selection { indexes: Seq::empty(), drop: true }),
    {
        Self { selection: Vec::new(), drop: true }
    }
}

/// The conversions below are specified by the `ensures` of `from`: a
/// selection cannot be written down as a specification value, only its
/// view can.
impl<const N: usize> From<([usize; N], bool)> for Indexes {
    /// The listed positions, to keep or, where the flag is set, to drop.
    fn from(value: ([usize; N], bool)) -> (r: Self)
        ensures
            r@ == (Selection { indexes: value.0@, drop: value.1 }),
    {
        Indexes { selection: array_to_vec(&value.0), drop: value.1 }
    }
}

impl<const N: usize> vstd::std_specs::convert::FromSpecImpl<([usize; N], bool)> for Indexes {
    open spec fn obeys_from_spec() -> bool {
        false
    }

    open spec fn from_spec(value: ([usize; N], bool)) -> Self {
        arbitrary()
    }
}

impl From<(Range<usize>, bool)> for Indexes {
    /// The positions of the range, to keep or, where the flag is set, to
    /// drop.
    fn from(value: (Range<usize>, bool)) -> (r: Self)
        ensures
            r@ == (Selection { indexes: range_seq(value.0.start, value.0.end), drop: value.1 }),
    {
        Indexes { selection: range_to_vec(value.0.start, value.0.end), drop: value.1 }
    }
}

impl vstd::std_specs::convert::FromSpecImpl<(Range<usize>, bool)> for Indexes {
    open spec fn obeys_from_spec() -> bool {
        false
    }

    open spec fn from_spec(value: (Range<usize>, bool)) -> Self {
        arbitrary()
    }
}

impl<const N: usize> From<[usize; N]> for Indexes {
    /// The listed positions, to keep.
    fn from(value: [usize; N]) -> (r: Self)
        ensures
            r@ == (Selection { indexes: value@, drop: false }),
    {
        Indexes { selection: array_to_vec(&value), drop: false }
    }
}

impl<const N: usize> vstd::std_specs::convert::FromSpecImpl<[usize; N]> for Indexes {
    open spec fn obeys_from_spec() -> bool {
        false
    }

    open spec fn from_spec(value: [usize; N]) -> Self {
        arbitrary()
    }
}

impl From<Range<usize>> for Indexes {
    /// The positions of the range, to keep.
    fn from(value: Range<usize>) -> (r: Self)
        ensures
            r@ == (Selection { indexes: range_seq(value.start, value.end), drop: false }),
    {
        Indexes { selection: range_to_vec(value.start, value.end), drop: false }
    }
}

impl vstd::std_specs::convert::FromSpecImpl<Range<usize>> for Indexes {
    open spec fn obeys_from_spec() -> bool {
        false
    }

    open spec fn from_spec(value: Range<usize>) -> Self {
        arbitrary()
    }
}

/// `Itertools::sorted` on positions: the same positions, each as often as
/// before, in ascending order.
#[verifier::external_body]
fn sorted(values: Vec<usize>) -> (r: Vec<usize>)
    ensures
        r@.to_multiset() == values@.to_multiset(),
        forall|i: int, j: int| 0 <= i < j < r@.len() ==> r@[i] <= r@[j],
{
    values.into_iter().sorted().collect()
}

/// The positions of a set, each once, in the order in which the set hands
/// them out.
fn set_to_vec(set: &HashSet<usize>) -> (r: Vec<usize>)
    ensures
        r@.no_duplicates(),
        forall|x: usize| r@.contains(x) <==> set@.contains(x),
{
    broadcast use vstd::std_specs::hash::group_hash_axioms;

    let mut values: Vec<usize> = Vec::with_capacity(set.len());
    let ghost keys = set.iter().remaining();
    for value in it: set.iter()
        invariant
            it.seq() == keys,
            values@.len() == it.index(),
            forall|j: int| 0 <= j < values@.len() ==> values@[j] == *keys[j],
    {
        values.push(*value);
    }
    proof {
        let unref = keys.unref();
        assert(values@ =~= unref);
        assert forall|x: usize| values@.contains(x) <==> set@.contains(x) by {
            assert(unref.to_set().contains(x) <==> unref.contains(x));
        }
    }
    values
}

/// The sorted positions that a set of all but the dropped ones hands out
/// are the complement of the dropped ones.
proof fn lemma_sorted_is_complement(
    sorted: Seq<usize>,
    kept: Seq<usize>,
    dropped: Seq<usize>,
    len: nat,
)
    requires
        len <= usize::MAX,
        kept.no_duplicates(),
        forall|x: usize| kept.contains(x) <==> x < len && !dropped.contains(x),
        sorted.to_multiset() == kept.to_multiset(),
        forall|i: int, j: int| 0 <= i < j < sorted.len() ==> sorted[i] <= sorted[j],
    ensures
        sorted == complement(dropped, len),
{
    broadcast use vstd::multiset::group_multiset_axioms;

    let c = complement(dropped, len);
    lemma_complement(dropped, len);
    assert(c.no_duplicates());
    kept.lemma_multiset_has_no_duplicates();
    c.lemma_multiset_has_no_duplicates();
    kept.to_multiset_ensures();
    c.to_multiset_ensures();
    assert forall|x: usize| kept.to_multiset().count(x) == c.to_multiset().count(x) by {
        assert(kept.contains(x) <==> c.contains(x));
    }
    assert(kept.to_multiset() =~= c.to_multiset());
    let leq = |a: usize, b: usize| a <= b;
    assert(vstd::relations::sorted_by(sorted, leq));
    assert(vstd::relations::sorted_by(c, leq));
    assert(vstd::relations::total_ordering(leq));
    vstd::seq_lib::lemma_sorted_unique(sorted, c, leq);
}

fn array_to_vec<const N: usize>(values: &[usize; N]) -> (r: Vec<usize>)
    ensures
        r@ == values@,
{
    let mut selection: Vec<usize> = Vec::with_capacity(N);
    let mut i: usize = 0;
    while i < N
        invariant
            i <= N,
            values@.len() == N,
            selection@ == values@.take(i as int),
        decreases N - i,
    {
        selection.push(values[i]);
        assert(selection@ =~= values@.take(i + 1));
        i = i + 1;
    }
    assert(selection@ =~= values@);
    selection
}

fn range_to_vec(start: usize, end: usize) -> (r: Vec<usize>)
    ensures
        r@ == range_seq(start, end),
{
    let mut selection: Vec<usize> = Vec::new();
    let mut i: usize = start;
    while i < end
        invariant
            start <= i <= end || (end < start && i == start),
            selection@.len() == i - start,
            forall|k: int| 0 <= k < selection@.len() ==> selection@[k] == start + k,
        decreases end - i,
    {
        selection.push(i);
        i = i + 1;
    }
    assert(selection@ =~= range_seq(start, end));
    selection
}

} // verus!
