//! Visibility aggregation: turning a per-pixel buffer of optional object ids
//! into an ordered list of per-object coverage counts.
//!
//! A coverage entry `(id, count)` says that `count` of the buffer's pixels
//! carry `id`; the fractional screen coverage of the object is `count`
//! divided by the total pixel count, empty pixels included.

use vstd::prelude::*;

verus! {

/// A list of the objects with their ids and their coverage pixel counts,
/// exactly one entry per object, sorted by count descending.
pub type Visibility = Vec<(u32, u64)>;

/// Whether some entry of the visibility carries the given object id.
pub open spec fn has_entry(v: Seq<(u32, u64)>, id: u32) -> bool {
    exists|k: int| 0 <= k < v.len() && (#[trigger] v[k]).0 == id
}

/// How many of the first `n` buffer cells hold the given id.
pub open spec fn count_id_prefix(b: Seq<Option<u32>>, id: u32, n: int) -> nat
    decreases n,
{
    if n <= 0 {
        0
    } else {
        count_id_prefix(b, id, n - 1) + if b[n - 1] == Some(id) {
            1nat
        } else {
            0nat
        }
    }
}

/// How many buffer cells hold the given id.
pub open spec fn count_id(b: Seq<Option<u32>>, id: u32) -> nat {
    count_id_prefix(b, id, b.len() as int)
}

/// The sum of the counts of the ids below `m`, over the first `n` cells.
pub open spec fn sum_counts_prefix(b: Seq<Option<u32>>, m: int, n: int) -> nat
    decreases m,
{
    if m <= 0 {
        0
    } else {
        sum_counts_prefix(b, m - 1, n) + count_id_prefix(b, (m - 1) as u32, n)
    }
}

/// The sum of the counts of the ids below `m` over the whole buffer.
pub open spec fn sum_counts(b: Seq<Option<u32>>, m: int) -> nat {
    sum_counts_prefix(b, m, b.len() as int)
}

/// A count over a prefix never exceeds the prefix length.
proof fn lemma_count_le(b: Seq<Option<u32>>, id: u32, n: int)
    requires
        0 <= n,
    ensures
        count_id_prefix(b, id, n) <= n,
    decreases n,
{
    if n > 0 {
        lemma_count_le(b, id, n - 1);
    }
}

/// Taking one more cell into account raises the sum by one when that cell
/// holds an id below `m`, and leaves it unchanged otherwise.
proof fn lemma_sum_counts_step(b: Seq<Option<u32>>, m: int, n: int)
    requires
        0 < n,
        0 <= m <= u32::MAX + 1,
    ensures
        sum_counts_prefix(b, m, n) == sum_counts_prefix(b, m, n - 1) + if b[n - 1] matches Some(id)
            && id < m {
            1int
        } else {
            0int
        },
    decreases m,
{
    if m > 0 {
        lemma_sum_counts_step(b, m - 1, n);
    }
}

/// Over an empty prefix every sum of counts is zero.
proof fn lemma_sum_counts_zero(b: Seq<Option<u32>>, m: int)
    ensures
        sum_counts_prefix(b, m, 0) == 0,
    decreases m,
{
    if m > 0 {
        lemma_sum_counts_zero(b, m - 1);
    }
}

/// Induction step for the coverage-sum bound, over a prefix of the buffer.
proof fn lemma_sum_counts_prefix_le(b: Seq<Option<u32>>, m: int, n: int)
    requires
        0 <= n <= b.len(),
        0 <= m <= u32::MAX + 1,
    ensures
        sum_counts_prefix(b, m, n) <= n,
    decreases n,
{
    if n > 0 {
        lemma_sum_counts_prefix_le(b, m, n - 1);
        lemma_sum_counts_step(b, m, n);
    } else {
        lemma_sum_counts_zero(b, m);
    }
}

/// The counts of the ids below `m` sum to at most the number of cells: in
/// coverage terms, the coverages of all objects sum to at most one full
/// screen.
pub proof fn lemma_sum_counts_le_total(b: Seq<Option<u32>>, m: int)
    requires
        0 <= m <= u32::MAX + 1,
    ensures
        sum_counts(b, m) <= b.len(),
{
    lemma_sum_counts_prefix_le(b, m, b.len() as int);
}

/// The sum of the coverage counts of a visibility sequence.
pub open spec fn sum_entry_counts(v: Seq<(u32, u64)>) -> int
    decreases v.len(),
{
    if v.len() == 0 {
        0
    } else {
        sum_entry_counts(v.drop_last()) + v.last().1
    }
}

/// Replacing one entry shifts the sum by the difference of the counts.
proof fn lemma_sum_entry_update(v: Seq<(u32, u64)>, i: int, x: (u32, u64))
    requires
        0 <= i < v.len(),
    ensures
        sum_entry_counts(v.update(i, x)) == sum_entry_counts(v) - v[i].1 + x.1,
    decreases v.len(),
{
    if i == v.len() - 1 {
        assert(v.update(i, x).drop_last() =~= v.drop_last());
    } else {
        assert(v.update(i, x).drop_last() =~= v.drop_last().update(i, x));
        lemma_sum_entry_update(v.drop_last(), i, x);
    }
}

/// The canonical one-entry-per-id sequence sums to the sum of the per-id
/// counts.
proof fn lemma_sum_entry_canonical(b: Seq<Option<u32>>, v: Seq<(u32, u64)>, j: int)
    requires
        0 <= j <= v.len(),
        forall|k: int|
            0 <= k < v.len() ==> (#[trigger] v[k]).0 == k as u32 && v[k].1 == count_id(
                b,
                k as u32,
            ),
    ensures
        sum_entry_counts(v.take(j)) == sum_counts_prefix(b, j, b.len() as int),
    decreases j,
{
    if j > 0 {
        lemma_sum_entry_canonical(b, v, j - 1);
        assert(v.take(j).drop_last() =~= v.take(j - 1));
    }
}

/// Computes the visibility based on the given ids in the frame buffer.
///
/// The result holds one entry per object id below `num_objects`, each with the
/// number of buffer cells carrying that id, sorted by count descending (ties
/// in any order).
///
/// # Arguments
/// * `visibility` - The visibility to update.
/// * `id_buffer` - The buffer containing the ids of the objects.
/// * `num_objects` - The number of objects in the scene.
pub fn compute_visibility_from_id_buffer(
    visibility: &mut Visibility,
    id_buffer: &Vec<Option<u32>>,
    num_objects: usize,
)
    requires
        num_objects <= u32::MAX,
        forall|i: int|
            0 <= i < id_buffer@.len() ==> ((#[trigger] id_buffer@[i]) matches Some(id) ==> (
            id as int) < num_objects as int),
    ensures
        final(visibility)@.len() == num_objects,
        forall|k: int|
            0 <= k < num_objects ==> (#[trigger] final(visibility)@[k]).0 < num_objects,
        forall|k: int|
            0 <= k < num_objects ==> (#[trigger] final(visibility)@[k]).1 == count_id(
                id_buffer@,
                final(visibility)@[k].0,
            ),
        forall|k: int|
            0 <= k < num_objects ==> (#[trigger] final(visibility)@[k]).1 <= id_buffer@.len(),
        forall|id: u32| (id as int) < num_objects ==> #[trigger] has_entry(final(visibility)@, id),
        forall|k1: int, k2: int|
            0 <= k1 < k2 < num_objects ==> final(visibility)@[k1].0 != final(visibility)@[k2].0,
        forall|k1: int, k2: int|
            0 <= k1 <= k2 < num_objects ==> final(visibility)@[k1].1 >= final(visibility)@[k2].1,
        sum_entry_counts(final(visibility)@) <= id_buffer@.len(),
{
    let ghost b = id_buffer@;

    // First create a histogram of the rendered ids.
    let mut histogram: Vec<u64> = Vec::new();
    let mut j: usize = 0;
    while j < num_objects
        invariant
            j <= num_objects,
            histogram@.len() == j,
            forall|t: int| 0 <= t < j ==> histogram@[t] == 0,
        decreases num_objects - j,
    {
        histogram.push(0);
        j = j + 1;
    }

    let n = id_buffer.len();
    let mut i: usize = 0;
    while i < n
        invariant
            i <= n,
            n == b.len(),
            b == id_buffer@,
            num_objects <= u32::MAX,
            histogram@.len() == num_objects,
            forall|t: int|
                0 <= t < b.len() ==> ((#[trigger] b[t]) matches Some(id) ==> (id as int)
                    < num_objects as int),
            forall|t: int|
                0 <= t < num_objects ==> histogram@[t] == count_id_prefix(b, t as u32, i as int),
        decreases n - i,
    {
        proof {
            assert forall|t: int| 0 <= t < num_objects implies #[trigger] count_id_prefix(
                b,
                t as u32,
                i as int,
            ) <= i as int by {
                lemma_count_le(b, t as u32, i as int);
            }
        }
        match id_buffer[i] {
            Some(id) => {
                let idx = id as usize;
                let c = histogram[idx];
                histogram.set(idx, c + 1);
            },
            None => {},
        }
        i = i + 1;
    }

    // Fill the visibility from the histogram, not ordered yet.
    visibility.clear();
    let mut j: usize = 0;
    while j < num_objects
        invariant
            j <= num_objects,
            n == b.len(),
            num_objects <= u32::MAX,
            histogram@.len() == num_objects,
            forall|t: int| 0 <= t < num_objects ==> histogram@[t] == count_id(b, t as u32),
            visibility@.len() == j,
            forall|k: int|
                0 <= k < j ==> (#[trigger] visibility@[k]).0 == k as u32 && visibility@[k].1
                    == count_id(b, k as u32),
        decreases num_objects - j,
    {
        visibility.push((j as u32, histogram[j]));
        j = j + 1;
    }

    proof {
        assert forall|k: int| 0 <= k < num_objects implies (#[trigger] visibility@[k]).1
            <= b.len() by {
            lemma_count_le(b, k as u32, b.len() as int);
        }
    }

    proof {
        assert forall|id: u32| (id as int) < num_objects as int implies #[trigger] has_entry(
            visibility@,
            id,
        ) by {
            assert(visibility@[id as int].0 == id);
        }
        lemma_sum_entry_canonical(b, visibility@, num_objects as int);
        assert(visibility@.take(num_objects as int) =~= visibility@);
        lemma_sum_counts_le_total(b, num_objects as int);
    }

    // Sort the visibility by count, descending, with a selection sort.
    sort_by_count_descending(visibility, Ghost(b), Ghost(num_objects as int));
}

/// Whether every entry of the sequence is the exact coverage record of its id.
spec fn entries_exact(v: Seq<(u32, u64)>, b: Seq<Option<u32>>, m: int) -> bool {
    &&& forall|k: int| 0 <= k < v.len() ==> (#[trigger] v[k]).0 < m
    &&& forall|k: int| 0 <= k < v.len() ==> (#[trigger] v[k]).1 == count_id(b, v[k].0)
    &&& forall|k: int| 0 <= k < v.len() ==> (#[trigger] v[k]).1 <= b.len()
    &&& forall|id: u32| (id as int) < m ==> #[trigger] has_entry(v, id)
    &&& forall|k1: int, k2: int| 0 <= k1 < k2 < v.len() ==> v[k1].0 != v[k2].0
}

/// Sorts the coverage entries by count, descending, preserving the exactness
/// of the entries.
fn sort_by_count_descending(v: &mut Vec<(u32, u64)>, Ghost(b): Ghost<Seq<Option<u32>>>, Ghost(m): Ghost<int>)
    requires
        entries_exact(old(v)@, b, m),
        old(v)@.len() == m,
    ensures
        final(v)@.len() == m,
        entries_exact(final(v)@, b, m),
        forall|k1: int, k2: int|
            0 <= k1 <= k2 < final(v)@.len() ==> final(v)@[k1].1 >= final(v)@[k2].1,
        sum_entry_counts(final(v)@) == sum_entry_counts(old(v)@),
{
    let n = v.len();
    let mut i: usize = 0;
    while i < n
        invariant
            i <= n,
            v@.len() == n,
            n as int == m,
            entries_exact(v@, b, m),
            sum_entry_counts(v@) == sum_entry_counts(old(v)@),
            forall|k1: int, k2: int| 0 <= k1 <= k2 < i ==> v@[k1].1 >= v@[k2].1,
            forall|k1: int, k2: int| 0 <= k1 < i && i <= k2 < n ==> v@[k1].1 >= v@[k2].1,
        decreases n - i,
    {
        let mut best: usize = i;
        let mut j: usize = i + 1;
        while j < n
            invariant
                i <= best < j <= n,
                v@.len() == n,
                forall|t: int| i <= t < j ==> v@[best as int].1 >= (#[trigger] v@[t]).1,
            decreases n - j,
        {
            if v[j].1 > v[best].1 {
                best = j;
            }
            j = j + 1;
        }
        let ghost pre = v@;
        let a = v[i];
        let c = v[best];
        v.set(i, c);
        v.set(best, a);
        proof {
            let post = v@;
            assert(post =~= pre.update(i as int, pre[best as int]).update(best as int, pre[i as int]));
            lemma_sum_entry_update(pre, i as int, pre[best as int]);
            lemma_sum_entry_update(
                pre.update(i as int, pre[best as int]),
                best as int,
                pre[i as int],
            );
            assert forall|id: u32| (id as int) < m implies #[trigger] has_entry(post, id) by {
                assert(has_entry(pre, id));
                let k0 = choose|k: int| 0 <= k < pre.len() && (#[trigger] pre[k]).0 == id;
                if k0 == i as int {
                    assert(post[best as int].0 == id);
                } else if k0 == best as int {
                    assert(post[i as int].0 == id);
                } else {
                    assert(post[k0].0 == id);
                }
            }
        }
        i = i + 1;
    }
}

} // verus!
