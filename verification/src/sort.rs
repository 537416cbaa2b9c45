//! Sorted and unique collections of identities.

use vstd::prelude::*;

use core::cmp::Ordering;

use crate::id::ConstId;

verus! {

/// The raw 64-bit values behind a sequence of ids.
pub open spec fn ids_view(s: Seq<ConstId>) -> Seq<u64> {
    s.map_values(|id: ConstId| id@)
}

/// The sequence is in ascending order.
pub open spec fn sorted(s: Seq<u64>) -> bool {
    forall|i: int, j: int| 0 <= i <= j < s.len() ==> s[i] <= s[j]
}

/// No two positions hold the same value.
pub open spec fn distinct(s: Seq<u64>) -> bool {
    forall|i: int, j: int| 0 <= i < j < s.len() ==> s[i] != s[j]
}

/// Some value occurs at two different positions.
pub open spec fn has_duplicate(s: Seq<u64>) -> bool {
    exists|i: int, j: int| 0 <= i < j < s.len() && s[i] == s[j]
}

/// Lexicographic three-way comparison of two sequences of raw values: the
/// first differing position decides, and when one sequence runs out first it
/// is the smaller one.
pub open spec fn cmp_seqs(s1: Seq<u64>, s2: Seq<u64>) -> Ordering
    decreases s1.len(),
{
    if s1.len() == 0 && s2.len() == 0 {
        Ordering::Equal
    } else if s1.len() == 0 {
        Ordering::Less
    } else if s2.len() == 0 {
        Ordering::Greater
    } else if s1[0] < s2[0] {
        Ordering::Less
    } else if s1[0] > s2[0] {
        Ordering::Greater
    } else {
        cmp_seqs(s1.drop_first(), s2.drop_first())
    }
}

/// Exchanging two positions of a sequence keeps its multiset of values.
proof fn lemma_swap_preserves_multiset<A>(s: Seq<A>, t: Seq<A>, i: int, j: int)
    requires
        0 <= i < s.len(),
        0 <= j < s.len(),
        i != j,
        t == s.update(i, s[j]).update(j, s[i]),
    ensures
        t.to_multiset() == s.to_multiset(),
{
    broadcast use vstd::seq_lib::to_multiset_update;
    broadcast use vstd::seq_lib::group_to_multiset_ensures;
    broadcast use vstd::multiset::group_multiset_axioms;

    assert(s.contains(s[i]));
    assert(s.contains(s[j]));
    assert(s.update(i, s[j])[j] == s[j]);
    assert(t.to_multiset() =~= s.to_multiset());
}

/// An ascending sequence whose adjacent values differ has no equal pair at
/// all.
proof fn lemma_sorted_adjacent_distinct(s: Seq<u64>)
    requires
        sorted(s),
        forall|k1: int, k2: int|
            #![trigger s[k1], s[k2]]
            0 <= k1 && k2 == k1 + 1 && k2 < s.len() ==> s[k1] != s[k2],
    ensures
        distinct(s),
{
    assert forall|i: int, j: int| 0 <= i < j < s.len() implies s[i] != s[j] by {
        assert(s[i] <= s[i + 1]);
        assert(s[i] != s[i + 1]);
        assert(s[i + 1] <= s[j]);
    }
}

/// A sequence has a repeated position exactly when some value is counted at
/// least twice in its multiset.
proof fn lemma_dup_iff_count(s: Seq<u64>)
    ensures
        has_duplicate(s) <==> exists|x: u64| s.to_multiset().count(x) >= 2,
{
    broadcast use vstd::seq_lib::group_to_multiset_ensures;
    broadcast use vstd::multiset::group_multiset_axioms;

    if has_duplicate(s) {
        let (i, j) = choose|i: int, j: int| 0 <= i < j < s.len() && s[i] == s[j];
        let x = s[i];
        assert(s.remove(i).to_multiset() =~= s.to_multiset().remove(x));
        assert(s.remove(i)[j - 1] == s[j]);
        assert(s.remove(i).contains(x));
        assert(s.remove(i).to_multiset().count(x) > 0);
        assert(s.to_multiset().count(x) >= 2);
    }
    if exists|x: u64| s.to_multiset().count(x) >= 2 {
        let x = choose|x: u64| s.to_multiset().count(x) >= 2;
        assert(s.to_multiset().contains(x));
        assert(s.contains(x));
        let i = choose|i: int| 0 <= i < s.len() && s[i] == x;
        assert(s.remove(i).to_multiset() =~= s.to_multiset().remove(x));
        assert(s.remove(i).to_multiset().count(x) >= 1);
        assert(s.remove(i).contains(x));
        let j0 = choose|j0: int| 0 <= j0 < s.remove(i).len() && s.remove(i)[j0] == x;
        if j0 < i {
            assert(s[j0] == x);
            assert(0 <= j0 < i < s.len() && s[j0] == s[i]);
        } else {
            assert(s[j0 + 1] == x);
            assert(0 <= i < j0 + 1 < s.len() && s[i] == s[j0 + 1]);
        }
    }
}

/// Two sequences with the same multiset of values repeat a value either both
/// or neither.
proof fn lemma_dup_transfer(s: Seq<u64>, t: Seq<u64>)
    requires
        s.to_multiset() == t.to_multiset(),
    ensures
        has_duplicate(s) == has_duplicate(t),
{
    lemma_dup_iff_count(s);
    lemma_dup_iff_count(t);
}

/// Ascending order is canonical: two ascending sequences holding the same
/// multiset of values are the same sequence. In particular sorting is
/// idempotent - sorting an already ascending sequence gives it back.
pub proof fn lemma_ascending_permutation_equal(a: Seq<u64>, b: Seq<u64>)
    requires
        sorted(a),
        sorted(b),
        a.to_multiset() == b.to_multiset(),
    ensures
        a == b,
{
    let leq = |x: u64, y: u64| x <= y;
    assert(vstd::relations::total_ordering(leq)) by {
        assert(vstd::relations::reflexive(leq));
        assert(vstd::relations::transitive(leq));
        assert(vstd::relations::antisymmetric(leq));
        assert(vstd::relations::strongly_connected(leq));
    }
    assert(vstd::relations::sorted_by(a, leq));
    assert(vstd::relations::sorted_by(b, leq));
    vstd::seq_lib::lemma_sorted_unique(a, b, leq);
}

/// Returns `arr` sorted ascending by raw value, using repeated adjacent
/// exchange passes that stop once a pass swaps nothing. The result holds
/// exactly the values of `arr`.
pub fn const_sort<const SIZE: usize>(arr: [ConstId; SIZE]) -> (r: [ConstId; SIZE])
    ensures
        sorted(ids_view(r@)),
        r@.to_multiset() == arr@.to_multiset(),
        ids_view(r@).to_multiset() == ids_view(arr@).to_multiset(),
{
    let mut arr = arr;
    let ghost orig: Seq<ConstId> = arr@;
    let mut s: usize = SIZE;
    while s > 0
        invariant
            s <= SIZE,
            arr@.to_multiset() == orig.to_multiset(),
            ids_view(arr@).to_multiset() == ids_view(orig).to_multiset(),
            forall|a: int, b: int|
                s <= a <= b < SIZE ==> ids_view(arr@)[a] <= ids_view(arr@)[b],
            forall|a: int, b: int|
                0 <= a < s && s <= b < SIZE ==> ids_view(arr@)[a] <= ids_view(arr@)[b],
        ensures
            sorted(ids_view(arr@)),
            arr@.to_multiset() == orig.to_multiset(),
            ids_view(arr@).to_multiset() == ids_view(orig).to_multiset(),
        decreases s,
    {
        let mut swapped = false;
        let mut i: usize = 1;
        while i < SIZE
            invariant
                1 <= s <= SIZE,
                1 <= i <= SIZE,
                arr@.to_multiset() == orig.to_multiset(),
                ids_view(arr@).to_multiset() == ids_view(orig).to_multiset(),
                forall|a: int, b: int|
                    s <= a <= b < SIZE ==> ids_view(arr@)[a] <= ids_view(arr@)[b],
                forall|a: int, b: int|
                    0 <= a < s && s <= b < SIZE ==> ids_view(arr@)[a] <= ids_view(arr@)[b],
                forall|k: int| 0 <= k < i ==> #[trigger] ids_view(arr@)[k] <= ids_view(arr@)[i - 1],
                i >= s ==> forall|k: int| 0 <= k < s ==> #[trigger] ids_view(arr@)[k] <= ids_view(arr@)[s - 1],
                !swapped ==> forall|a: int, b: int|
                    0 <= a <= b < i ==> ids_view(arr@)[a] <= ids_view(arr@)[b],
            decreases SIZE - i,
        {
            let left = arr[i - 1];
            let right = arr[i];
            proof {
                assert(ids_view(arr@)[i - 1] == arr@[i - 1]@);
                assert(ids_view(arr@)[i as int] == arr@[i as int]@);
            }
            if left.raw_value() > right.raw_value() {
                let ghost before: Seq<ConstId> = arr@;
                proof {
                    assert(i < s) by {
                        if i >= s {
                            assert(ids_view(before)[i - 1] <= ids_view(before)[i as int]);
                        }
                    }
                }
                arr[i - 1] = right;
                arr[i] = left;
                swapped = true;
                proof {
                    lemma_swap_preserves_multiset(before, arr@, i - 1, i as int);
                    assert(ids_view(arr@) =~= ids_view(before).update(i - 1, before[i as int]@)
                        .update(i as int, before[i - 1]@));
                    lemma_swap_preserves_multiset(
                        ids_view(before),
                        ids_view(arr@),
                        i - 1,
                        i as int,
                    );
                    assert(forall|k: int|
                        0 <= k < SIZE && k != i - 1 && k != i ==> ids_view(arr@)[k] == ids_view(
                            before,
                        )[k]);
                    assert(ids_view(arr@)[i - 1] == ids_view(before)[i as int]);
                    assert(ids_view(arr@)[i as int] == ids_view(before)[i - 1]);
                }
            }
            i += 1;
        }
        if !swapped {
            break;
        }
        s = s - 1;
    }
    arr
}

/// Lexicographic three-way comparison of two id slices by raw value.
pub fn const_cmp(slice1: &[ConstId], slice2: &[ConstId]) -> (r: Ordering)
    ensures
        r == cmp_seqs(ids_view(slice1@), ids_view(slice2@)),
{
    let ghost v1: Seq<u64> = ids_view(slice1@);
    let ghost v2: Seq<u64> = ids_view(slice2@);
    let mut i: usize = 0;
    proof {
        assert(v1.skip(0) =~= v1);
        assert(v2.skip(0) =~= v2);
    }
    while i < slice1.len()
        invariant
            0 <= i <= slice1.len(),
            i <= slice2.len(),
            v1 == ids_view(slice1@),
            v2 == ids_view(slice2@),
            cmp_seqs(v1, v2) == cmp_seqs(v1.skip(i as int), v2.skip(i as int)),
        decreases slice1.len() - i,
    {
        if i >= slice2.len() {
            proof {
                assert(v2.skip(i as int).len() == 0);
                assert(v1.skip(i as int).len() > 0);
            }
            return Ordering::Greater;
        }

        let left = slice1[i].raw_value();
        let right = slice2[i].raw_value();
        if left > right {
            proof {
                assert(v1.skip(i as int)[0] == v1[i as int]);
                assert(v2.skip(i as int)[0] == v2[i as int]);
            }
            return Ordering::Greater;
        } else if left < right {
            proof {
                assert(v1.skip(i as int)[0] == v1[i as int]);
                assert(v2.skip(i as int)[0] == v2[i as int]);
            }
            return Ordering::Less;
        }

        proof {
            assert(v1.skip(i as int)[0] == v1[i as int]);
            assert(v2.skip(i as int)[0] == v2[i as int]);
            assert(v1.skip(i as int).drop_first() =~= v1.skip(i + 1));
            assert(v2.skip(i as int).drop_first() =~= v2.skip(i + 1));
        }
        i += 1;
    }

    if i < slice2.len() {
        proof {
            assert(v1.skip(i as int).len() == 0);
            assert(v2.skip(i as int).len() > 0);
        }
        return Ordering::Less;
    }

    proof {
        assert(v1.skip(i as int).len() == 0);
        assert(v2.skip(i as int).len() == 0);
    }
    Ordering::Equal
}

/// An array of [`ConstId`] structs that is guaranteed to be in sorted order.
#[derive(Debug, Clone, Copy, PartialEq, Eq, PartialOrd, Ord, Hash)]
pub struct OrderedIdArray<const SIZE: usize> {
    ids: [ConstId; SIZE],
}

impl<const SIZE: usize> View for OrderedIdArray<SIZE> {
    type V = Seq<u64>;

    closed spec fn view(&self) -> Seq<u64> {
        ids_view(self.ids@)
    }
}

impl<const SIZE: usize> OrderedIdArray<SIZE> {
    #[verifier::type_invariant]
    spec fn inv(self) -> bool {
        sorted(self@)
    }

    /// Returns a new ordered array containing the sorted version of `ids`.
    pub fn new(ids: [ConstId; SIZE]) -> (r: Self)
        ensures
            sorted(r@),
            r@.to_multiset() == ids_view(ids@).to_multiset(),
    {
        Self { ids: const_sort(ids) }
    }

    /// Returns the underlying id slice, in ascending order.
    pub fn as_raw_slice(&self) -> (r: &[ConstId])
        ensures
            ids_view(r@) == self@,
            sorted(self@),
    {
        proof {
            use_type_invariant(self);
        }
        self.ids.as_slice()
    }

    /// Returns an [`OrderedIdSlice`] with this array's content.
    pub fn as_slice(&self) -> (r: OrderedIdSlice)
        ensures
            r@ == self@,
    {
        OrderedIdSlice::from_arr(self)
    }

    /// Consumes `self` and returns the underlying id array, in ascending
    /// order.
    pub fn into_raw(self) -> (r: [ConstId; SIZE])
        ensures
            ids_view(r@) == self@,
            sorted(self@),
    {
        proof {
            use_type_invariant(&self);
        }
        self.ids
    }

    /// Consumes `self` and returns a [`UniqueIdArray`] with the same content.
    ///
    /// Returns `Err(self)`, unchanged, exactly when the ids contain
    /// duplicates.
    pub fn into_unique(self) -> (r: Result<UniqueIdArray<SIZE>, Self>)
        ensures
            match r {
                Ok(u) => u@ == self@ && !has_duplicate(self@),
                Err(e) => e == self && has_duplicate(self@),
            },
    {
        proof {
            use_type_invariant(&self);
        }
        match UniqueIdArray::new(self.ids) {
            Some(unique) => {
                proof {
                    use_type_invariant(&unique);
                    lemma_ascending_permutation_equal(unique@, self@);
                }
                Ok(unique)
            },
            None => Err(self),
        }
    }

    /// Returns the ordering between `self` and `other`.
    pub fn const_cmp_ordered<const SIZE2: usize>(&self, other: &OrderedIdArray<SIZE2>) -> (r:
        Ordering)
        ensures
            r == cmp_seqs(self@, other@),
    {
        const_cmp(self.as_raw_slice(), other.as_raw_slice())
    }

    /// Returns the ordering between `self` and `other`.
    pub fn const_cmp_ordered_slice(&self, other: &OrderedIdSlice) -> (r: Ordering)
        ensures
            r == cmp_seqs(self@, other@),
    {
        const_cmp(self.as_raw_slice(), other.as_raw_slice())
    }

    /// Returns the ordering between `self` and `other`.
    pub fn const_cmp_unique<const SIZE2: usize>(&self, other: &UniqueIdArray<SIZE2>) -> (r:
        Ordering)
        ensures
            r == cmp_seqs(self@, other@),
    {
        const_cmp(self.as_raw_slice(), other.as_raw_slice())
    }

    /// Returns the ordering between `self` and `other`.
    pub fn const_cmp_unique_slice(&self, other: &UniqueIdSlice) -> (r: Ordering)
        ensures
            r == cmp_seqs(self@, other@),
    {
        const_cmp(self.as_raw_slice(), other.as_raw_slice())
    }
}

/// An unsized slice of [`ConstId`] structs that is guaranteed to be in sorted
/// order.
#[derive(Debug, Clone, Copy, PartialEq, Eq, PartialOrd, Ord, Hash)]
pub struct OrderedIdSlice<'a> {
    ids: &'a [ConstId],
}

impl<'a> View for OrderedIdSlice<'a> {
    type V = Seq<u64>;

    closed spec fn view(&self) -> Seq<u64> {
        ids_view(self.ids@)
    }
}

impl<'a> OrderedIdSlice<'a> {
    #[verifier::type_invariant]
    spec fn inv(self) -> bool {
        sorted(self@)
    }

    /// Creates a new slice out of the data in `arr`.
    pub fn from_arr<const SIZE: usize>(arr: &'a OrderedIdArray<SIZE>) -> (r: Self)
        ensures
            r@ == arr@,
    {
        proof {
            use_type_invariant(arr);
        }
        Self { ids: arr.ids.as_slice() }
    }

    /// Returns the underlying slice, in ascending order.
    pub fn as_raw_slice(&self) -> (r: &[ConstId])
        ensures
            ids_view(r@) == self@,
            sorted(self@),
    {
        proof {
            use_type_invariant(self);
        }
        self.ids
    }

    /// Returns the ordering between `self` and `other`.
    pub fn const_cmp_ordered<const SIZE2: usize>(&self, other: &OrderedIdArray<SIZE2>) -> (r:
        Ordering)
        ensures
            r == cmp_seqs(self@, other@),
    {
        const_cmp(self.as_raw_slice(), other.as_raw_slice())
    }

    /// Returns the ordering between `self` and `other`.
    pub fn const_cmp_ordered_slice(&self, other: &OrderedIdSlice) -> (r: Ordering)
        ensures
            r == cmp_seqs(self@, other@),
    {
        const_cmp(self.as_raw_slice(), other.as_raw_slice())
    }

    /// Returns the ordering between `self` and `other`.
    pub fn const_cmp_unique<const SIZE2: usize>(&self, other: &UniqueIdArray<SIZE2>) -> (r:
        Ordering)
        ensures
            r == cmp_seqs(self@, other@),
    {
        const_cmp(self.as_raw_slice(), other.as_raw_slice())
    }

    /// Returns the ordering between `self` and `other`.
    pub fn const_cmp_unique_slice(&self, other: &UniqueIdSlice) -> (r: Ordering)
        ensures
            r == cmp_seqs(self@, other@),
    {
        const_cmp(self.as_raw_slice(), other.as_raw_slice())
    }
}

/// An array of [`ConstId`] structs that are guaranteed to be unique and in
/// sorted order.
#[derive(Debug, Clone, Copy, PartialEq, Eq, PartialOrd, Ord, Hash)]
pub struct UniqueIdArray<const SIZE: usize> {
    ids: [ConstId; SIZE],
}

impl<const SIZE: usize> View for UniqueIdArray<SIZE> {
    type V = Seq<u64>;

    closed spec fn view(&self) -> Seq<u64> {
        ids_view(self.ids@)
    }
}

impl<const SIZE: usize> UniqueIdArray<SIZE> {
    #[verifier::type_invariant]
    spec fn inv(self) -> bool {
        sorted(self@) && distinct(self@)
    }

    /// Returns a new unique and sorted array containing the sorted version of
    /// `ids`.
    ///
    /// Returns `None` exactly when `ids` contains duplicates.
    pub fn new(ids: [ConstId; SIZE]) -> (r: Option<Self>)
        ensures
            match r {
                Some(u) => {
                    &&& sorted(u@)
                    &&& distinct(u@)
                    &&& u@.to_multiset() == ids_view(ids@).to_multiset()
                    &&& !has_duplicate(ids_view(ids@))
                },
                None => has_duplicate(ids_view(ids@)),
            },
    {
        let sorted_ids = const_sort(ids);
        let ghost sv: Seq<u64> = ids_view(sorted_ids@);

        let mut i: usize = 1;
        while i < SIZE
            invariant
                1 <= i,
                i <= SIZE || SIZE == 0,
                sv == ids_view(sorted_ids@),
                sorted(sv),
                sv.to_multiset() == ids_view(ids@).to_multiset(),
                forall|k1: int, k2: int|
                    #![trigger sv[k1], sv[k2]]
                    0 <= k1 && k2 == k1 + 1 && k2 < i ==> sv[k1] != sv[k2],
            decreases SIZE - i,
        {
            let left = sorted_ids[i - 1].raw_value();
            let right = sorted_ids[i].raw_value();
            proof {
                assert(sv[i - 1] == sorted_ids@[i - 1]@);
                assert(sv[i as int] == sorted_ids@[i as int]@);
            }
            if left == right {
                proof {
                    lemma_dup_iff_count(sv);
                    assert(0 <= i - 1 < i < sv.len() && sv[i - 1] == sv[i as int]);
                    lemma_dup_transfer(sv, ids_view(ids@));
                }
                return None;
            }

            i += 1;
        }

        proof {
            lemma_sorted_adjacent_distinct(sv);
            lemma_dup_iff_count(sv);
            lemma_dup_transfer(sv, ids_view(ids@));
        }
        Some(Self { ids: sorted_ids })
    }

    /// Returns the underlying id slice, ascending and duplicate-free.
    pub fn as_raw_slice(&self) -> (r: &[ConstId])
        ensures
            ids_view(r@) == self@,
            sorted(self@),
            distinct(self@),
    {
        proof {
            use_type_invariant(self);
        }
        self.ids.as_slice()
    }

    /// Returns a [`UniqueIdSlice`] with this array's content.
    pub fn as_slice(&self) -> (r: UniqueIdSlice)
        ensures
            r@ == self@,
    {
        UniqueIdSlice::from_arr(self)
    }

    /// Returns the underlying id array, ascending and duplicate-free.
    pub fn into_raw(&self) -> (r: [ConstId; SIZE])
        ensures
            ids_view(r@) == self@,
            sorted(self@),
            distinct(self@),
    {
        proof {
            use_type_invariant(self);
        }
        self.ids
    }

    /// Returns an [`OrderedIdArray`] with the same content, dropping the
    /// uniqueness guarantee. This always succeeds.
    pub fn into_ordered(&self) -> (r: OrderedIdArray<SIZE>)
        ensures
            r@ == self@,
    {
        proof {
            use_type_invariant(self);
        }
        OrderedIdArray { ids: self.ids }
    }

    /// Returns the ordering between `self` and `other`.
    pub fn const_cmp_ordered<const SIZE2: usize>(&self, other: &OrderedIdArray<SIZE2>) -> (r:
        Ordering)
        ensures
            r == cmp_seqs(self@, other@),
    {
        const_cmp(self.as_raw_slice(), other.as_raw_slice())
    }

    /// Returns the ordering between `self` and `other`.
    pub fn const_cmp_ordered_slice(&self, other: &OrderedIdSlice) -> (r: Ordering)
        ensures
            r == cmp_seqs(self@, other@),
    {
        const_cmp(self.as_raw_slice(), other.as_raw_slice())
    }

    /// Returns the ordering between `self` and `other`.
    pub fn const_cmp_unique<const SIZE2: usize>(&self, other: &UniqueIdArray<SIZE2>) -> (r:
        Ordering)
        ensures
            r == cmp_seqs(self@, other@),
    {
        const_cmp(self.as_raw_slice(), other.as_raw_slice())
    }

    /// Returns the ordering between `self` and `other`.
    pub fn const_cmp_unique_slice(&self, other: &UniqueIdSlice) -> (r: Ordering)
        ensures
            r == cmp_seqs(self@, other@),
    {
        const_cmp(self.as_raw_slice(), other.as_raw_slice())
    }
}

/// An unsized slice of [`ConstId`] structs that are guaranteed to be unique
/// and in sorted order.
#[derive(Debug, Clone, Copy, PartialEq, Eq, PartialOrd, Ord, Hash)]
pub struct UniqueIdSlice<'a> {
    ids: &'a [ConstId],
}

impl<'a> View for UniqueIdSlice<'a> {
    type V = Seq<u64>;

    closed spec fn view(&self) -> Seq<u64> {
        ids_view(self.ids@)
    }
}

impl<'a> UniqueIdSlice<'a> {
    #[verifier::type_invariant]
    spec fn inv(self) -> bool {
        sorted(self@) && distinct(self@)
    }

    /// Creates a new slice out of the data in `arr`.
    pub fn from_arr<const SIZE: usize>(arr: &'a UniqueIdArray<SIZE>) -> (r: Self)
        ensures
            r@ == arr@,
    {
        proof {
            use_type_invariant(arr);
        }
        Self { ids: arr.ids.as_slice() }
    }

    /// Returns the underlying slice, ascending and duplicate-free.
    pub fn as_raw_slice(&self) -> (r: &[ConstId])
        ensures
            ids_view(r@) == self@,
            sorted(self@),
            distinct(self@),
    {
        proof {
            use_type_invariant(self);
        }
        self.ids
    }

    /// Returns the ordering between `self` and `other`.
    pub fn const_cmp_ordered<const SIZE2: usize>(&self, other: &OrderedIdArray<SIZE2>) -> (r:
        Ordering)
        ensures
            r == cmp_seqs(self@, other@),
    {
        const_cmp(self.as_raw_slice(), other.as_raw_slice())
    }

    /// Returns the ordering between `self` and `other`.
    pub fn const_cmp_ordered_slice(&self, other: &OrderedIdSlice) -> (r: Ordering)
        ensures
            r == cmp_seqs(self@, other@),
    {
        const_cmp(self.as_raw_slice(), other.as_raw_slice())
    }

    /// Returns the ordering between `self` and `other`.
    pub fn const_cmp_unique<const SIZE2: usize>(&self, other: &UniqueIdArray<SIZE2>) -> (r:
        Ordering)
        ensures
            r == cmp_seqs(self@, other@),
    {
        const_cmp(self.as_raw_slice(), other.as_raw_slice())
    }

    /// Returns the ordering between `self` and `other`.
    pub fn const_cmp_unique_slice(&self, other: &UniqueIdSlice) -> (r: Ordering)
        ensures
            r == cmp_seqs(self@, other@),
    {
        const_cmp(self.as_raw_slice(), other.as_raw_slice())
    }
}

} // verus!
