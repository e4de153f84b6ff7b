//! Retention of the shared working directory.
//!
//! A sweep has two phases. The age phase deletes every entry older than the
//! maximum age. The size phase visits what is left, newest first, keeps a
//! running total of the entries' sizes while that total stays within the
//! budget, and deletes every entry from the one that pushed the total over the
//! budget on. Once the budget is exceeded, the size of an older entry is never
//! computed: it is deleted directly.
//!
//! Times are nanoseconds since the Unix epoch, ages are nanoseconds and sizes
//! are bytes.

use vstd::prelude::*;

verus! {

/// The limits that a sweep enforces; `None` disables a rule.
#[derive(Debug, Clone, Copy, PartialEq, Eq, Structural)]
pub struct RetentionPolicy {
    /// The maximum age of an entry, in nanoseconds.
    pub max_age: Option<u128>,
    /// The maximum total size of the working directory, in bytes.
    pub max_total_size: Option<u64>,
}

/// An entry of the working directory as the retention rules see it.
pub struct EntryModel {
    /// Its modification time.
    pub modified: nat,
    /// Its recursive size.
    pub size: nat,
}

/// An entry modified at `modified` has outlived `max_age` at time `now`.
///
/// An entry modified after `now` has age zero.
pub open spec fn older_than(now: int, modified: int, max_age: int) -> bool {
    now - modified > max_age
}

/// The age rule of a policy removes an entry modified at `modified`.
pub open spec fn age_expired(now: int, modified: int, max_age: Option<u128>) -> bool {
    match max_age {
        Some(a) => older_than(now, modified, a as int),
        None => false,
    }
}

/// What the age phase keeps of `entries`, in their order.
pub open spec fn age_retained(entries: Seq<EntryModel>, now: int, max_age: Option<u128>) -> Seq<
    EntryModel,
>
    decreases entries.len(),
{
    if entries.len() == 0 {
        entries
    } else {
        let kept = age_retained(entries.drop_last(), now, max_age);
        if age_expired(now, entries.last().modified as int, max_age) {
            kept
        } else {
            kept.push(entries.last())
        }
    }
}

/// The running total after one more entry of size `size`: the size counts
/// only while the total is still within `max`.
pub open spec fn step_seen(seen: nat, size: nat, max: nat) -> nat {
    if seen <= max {
        seen + size
    } else {
        seen
    }
}

/// The running total after visiting the entries of sizes `sizes`, newest first.
pub open spec fn seen_after(sizes: Seq<nat>, max: nat) -> nat
    decreases sizes.len(),
{
    if sizes.len() == 0 {
        0
    } else {
        step_seen(seen_after(sizes.drop_last(), max), sizes.last(), max)
    }
}

/// The size of the entry at position `i` is computed: the total of the newer
/// entries is still within the budget.
pub open spec fn measured(sizes: Seq<nat>, max: nat, i: int) -> bool {
    seen_after(sizes.take(i), max) <= max
}

/// The entry at position `i` is deleted by the size phase: the total with it
/// is over the budget.
pub open spec fn evicted(sizes: Seq<nat>, max: nat, i: int) -> bool {
    seen_after(sizes.take(i + 1), max) > max
}

/// The sizes of `entries`, in their order.
pub open spec fn sizes_of(entries: Seq<EntryModel>) -> Seq<nat> {
    entries.map_values(|e: EntryModel| e.size)
}

/// How many of the entries, newest first, the size phase keeps: those before
/// the first one it deletes.
pub open spec fn retained_count(sizes: Seq<nat>, max: nat) -> nat
    decreases sizes.len(),
{
    if sizes.len() == 0 {
        0
    } else if evicted(sizes, max, sizes.len() - 1) {
        retained_count(sizes.drop_last(), max)
    } else {
        sizes.len()
    }
}

/// What the size phase keeps of `entries`, listed newest first.
pub open spec fn size_retained(entries: Seq<EntryModel>, max_total_size: Option<u64>) -> Seq<
    EntryModel,
> {
    match max_total_size {
        Some(m) => entries.take(retained_count(sizes_of(entries), m as nat) as int),
        None => entries,
    }
}

/// What one sweep keeps of `entries`, listed newest first.
pub open spec fn sweep_retained(entries: Seq<EntryModel>, now: int, policy: RetentionPolicy) -> Seq<
    EntryModel,
> {
    size_retained(age_retained(entries, now, policy.max_age), policy.max_total_size)
}

/// Whether the age rule of a policy with maximum age `max_age` deletes an
/// entry modified at `modified`, at time `now`.
pub fn is_expired(now: u128, modified: u128, max_age: Option<u128>) -> (r: bool)
    ensures
        r == age_expired(now as int, modified as int, max_age),
{
    match max_age {
        Some(a) => now > modified && now - modified > a,
        None => false,
    }
}

/// The entry at `a` comes before the one at `b` in the size phase: it is
/// newer, or as new and listed earlier.
pub open spec fn newer_first(modified: Seq<u128>, a: int, b: int) -> bool {
    modified[a] > modified[b] || (modified[a] == modified[b] && a < b)
}

/// The order in which the size phase visits entries modified at `modified`:
/// their indices, newest first, entries modified at the same time in the
/// order they are listed.
///
/// The result holds every index once: it has as many indices as there are
/// entries, each one in range, and they are strictly ordered.
pub fn newest_first(modified: &Vec<u128>) -> (order: Vec<usize>)
    ensures
        order.len() == modified.len(),
        forall|k: int| 0 <= k < order.len() ==> order[k] < modified.len(),
        forall|a: int, b: int|
            0 <= a < b < order.len() ==> newer_first(modified@, order[a] as int, order[b] as int),
{
    let mut order: Vec<usize> = Vec::new();
    let mut i: usize = 0;
    while i < modified.len()
        invariant
            i <= modified.len(),
            order.len() == i,
            forall|k: int| 0 <= k < order.len() ==> order[k] < i,
            forall|a: int, b: int|
                0 <= a < b < order.len() ==> newer_first(
                    modified@,
                    order[a] as int,
                    order[b] as int,
                ),
        decreases modified.len() - i,
    {
        let stamp = modified[i];
        let mut p: usize = 0;
        while p < order.len() && modified[order[p]] >= stamp
            invariant
                p <= order.len(),
                order.len() == i,
                i < modified.len(),
                stamp == modified[i as int],
                forall|k: int| 0 <= k < order.len() ==> order[k] < i,
                forall|k: int| 0 <= k < p ==> modified[order[k] as int] >= stamp,
            decreases order.len() - p,
        {
            p = p + 1;
        }
        let ghost before = order@;
        order.insert(p, i);
        proof {
            assert forall|k: int| p < k < before.len() implies modified[before[k] as int] < stamp by {
                assert(newer_first(modified@, before[p as int] as int, before[k] as int));
            }
            assert forall|a: int, b: int| 0 <= a < b < order.len() implies newer_first(
                modified@,
                order[a] as int,
                order[b] as int,
            ) by {
                if b < p {
                    assert(order[a] == before[a] && order[b] == before[b]);
                } else if b == p {
                    assert(order[a] == before[a]);
                } else if a == p {
                    assert(order[b] == before[b - 1]);
                } else if a < p {
                    assert(order[a] == before[a] && order[b] == before[b - 1]);
                } else {
                    assert(order[a] == before[a - 1] && order[b] == before[b - 1]);
                }
            }
        }
        i = i + 1;
    }
    order
}

/// The running total of the size phase of one sweep.
///
/// The entries are visited newest first. While the total is within the
/// budget ([`SizeBudget::needs_size`]), the caller computes the entry's size
/// and hands it to [`SizeBudget::add_entry_size`]; once it is over, the caller
/// hands the entry to [`SizeBudget::skip_entry`] without computing its size.
/// Both say whether the entry is to be deleted.
pub struct SizeBudget {
    max_total_size: u64,
    seen_size: u128,
    visited: Ghost<Seq<nat>>,
}

impl SizeBudget {
    /// The budget, in bytes.
    pub closed spec fn max(&self) -> nat {
        self.max_total_size as nat
    }

    /// The sizes of the entries visited so far, newest first; an entry whose
    /// size was not computed counts as zero.
    pub closed spec fn visited(&self) -> Seq<nat> {
        self.visited@
    }

    /// The running total is the one of the visited sizes.
    pub closed spec fn wf(&self) -> bool {
        &&& self.seen_size == seen_after(self.visited@, self.max_total_size as nat)
        &&& self.seen_size <= self.max_total_size as int + u64::MAX as int
    }

    /// A budget of `max_total_size` bytes, with no entry visited yet.
    pub fn new(max_total_size: u64) -> (r: SizeBudget)
        ensures
            r.wf(),
            r.max() == max_total_size as nat,
            r.visited() == Seq::<nat>::empty(),
    {
        SizeBudget { max_total_size, seen_size: 0, visited: Ghost(Seq::empty()) }
    }

    /// Whether the size of the next entry is needed: the total so far is
    /// within the budget.
    pub fn needs_size(&self) -> (r: bool)
        requires
            self.wf(),
        ensures
            r == (seen_after(self.visited(), self.max()) <= self.max()),
    {
        self.seen_size <= self.max_total_size as u128
    }

    /// Visits the next entry, of `size` bytes, and tells whether it is deleted.
    pub fn add_entry_size(&mut self, size: u64) -> (evict: bool)
        requires
            old(self).wf(),
            seen_after(old(self).visited(), old(self).max()) <= old(self).max(),
        ensures
            final(self).wf(),
            final(self).max() == old(self).max(),
            final(self).visited() == old(self).visited().push(size as nat),
            seen_after(final(self).visited(), final(self).max()) == seen_after(
                old(self).visited(),
                old(self).max(),
            ) + size,
            evict == (seen_after(final(self).visited(), final(self).max()) > final(self).max()),
            evict == evicted(final(self).visited(), final(self).max(), old(self).visited().len() as int),
    {
        let ghost visited = self.visited@.push(size as nat);
        self.seen_size = self.seen_size + size as u128;
        self.visited = Ghost(visited);
        proof {
            assert(visited.drop_last() =~= old(self).visited@);
            assert(visited.take(visited.len() as int) =~= visited);
        }
        self.seen_size > self.max_total_size as u128
    }

    /// Visits the next entry without computing its size, once the total is
    /// over the budget; the entry is deleted.
    pub fn skip_entry(&mut self) -> (evict: bool)
        requires
            old(self).wf(),
            seen_after(old(self).visited(), old(self).max()) > old(self).max(),
        ensures
            final(self).wf(),
            final(self).max() == old(self).max(),
            final(self).visited() == old(self).visited().push(0),
            seen_after(final(self).visited(), final(self).max()) == seen_after(
                old(self).visited(),
                old(self).max(),
            ),
            !measured(final(self).visited(), final(self).max(), old(self).visited().len() as int),
            evict,
            evict == evicted(final(self).visited(), final(self).max(), old(self).visited().len() as int),
    {
        let ghost visited = self.visited@.push(0);
        self.visited = Ghost(visited);
        proof {
            assert(visited.drop_last() =~= old(self).visited@);
            assert(visited.take(visited.len() as int) =~= visited);
            assert(visited.take(old(self).visited@.len() as int) =~= old(self).visited@);
        }
        true
    }
}

/// The total of `sizes`.
pub open spec fn total_size(sizes: Seq<nat>) -> nat
    decreases sizes.len(),
{
    if sizes.len() == 0 {
        0
    } else {
        total_size(sizes.drop_last()) + sizes.last()
    }
}

/// Once the running total is over the budget it stays over it.
proof fn lemma_over_budget_stays(sizes: Seq<nat>, max: nat, i: int, j: int)
    requires
        0 <= i <= j <= sizes.len(),
        seen_after(sizes.take(i), max) > max,
    ensures
        seen_after(sizes.take(j), max) > max,
    decreases j - i,
{
    if j > i {
        lemma_over_budget_stays(sizes, max, i, j - 1);
        assert(sizes.take(j).drop_last() =~= sizes.take(j - 1));
    }
}

/// The running total within the budget is the plain total.
proof fn lemma_seen_is_total(sizes: Seq<nat>, max: nat)
    ensures
        seen_after(sizes, max) <= max ==> seen_after(sizes, max) == total_size(sizes),
        seen_after(sizes, max) > max <==> total_size(sizes) > max,
    decreases sizes.len(),
{
    if sizes.len() > 0 {
        lemma_seen_is_total(sizes.drop_last(), max);
    }
}

/// Whether the entry at `i` is deleted depends on the entries up to it only.
proof fn lemma_evicted_prefix(sizes: Seq<nat>, max: nat, n: int, i: int)
    requires
        0 <= i < n <= sizes.len(),
    ensures
        evicted(sizes.take(n), max, i) == evicted(sizes, max, i),
{
    assert(sizes.take(n).take(i + 1) =~= sizes.take(i + 1));
}

/// The size phase keeps exactly the entries before `retained_count`: those
/// that the running total does not evict.
pub proof fn lemma_retained_count(sizes: Seq<nat>, max: nat)
    ensures
        retained_count(sizes, max) <= sizes.len(),
        forall|i: int|
            0 <= i < sizes.len() ==> (i < retained_count(sizes, max) <==> !evicted(
                sizes,
                max,
                i,
            )),
    decreases sizes.len(),
{
    if sizes.len() > 0 {
        let n = sizes.len() - 1;
        let rest = sizes.drop_last();
        assert(rest =~= sizes.take(n as int));
        if evicted(sizes, max, n as int) {
            lemma_retained_count(rest, max);
            assert forall|i: int| 0 <= i < n implies evicted(rest, max, i) == evicted(
                sizes,
                max,
                i,
            ) by {
                lemma_evicted_prefix(sizes, max, n as int, i);
            }
        } else {
            assert forall|i: int| 0 <= i < sizes.len() implies !evicted(sizes, max, i) by {
                if evicted(sizes, max, i) {
                    lemma_over_budget_stays(sizes, max, i + 1, sizes.len() as int);
                    assert(sizes.take(sizes.len() as int) =~= sizes);
                    assert(sizes.take(n + 1) =~= sizes);
                }
            }
        }
    }
}

/// Once an entry is deleted for size, every older entry is deleted too, and
/// the size of none of them is computed.
pub proof fn lemma_short_circuit(sizes: Seq<nat>, max: nat, i: int, j: int)
    requires
        0 <= i < j < sizes.len(),
        evicted(sizes, max, i),
    ensures
        !measured(sizes, max, j),
        evicted(sizes, max, j),
{
    lemma_over_budget_stays(sizes, max, i + 1, j);
    lemma_over_budget_stays(sizes, max, i + 1, j + 1);
}

/// The size of an entry that is not measured has no effect on the sweep:
/// whatever it is, the same entries are measured and the same are deleted.
pub proof fn lemma_unmeasured_size_unused(a: Seq<nat>, b: Seq<nat>, max: nat, j: int)
    requires
        a.len() == b.len(),
        0 <= j < a.len(),
        forall|i: int| 0 <= i < a.len() && i != j ==> a[i] == b[i],
        !measured(a, max, j),
    ensures
        forall|i: int| 0 <= i < a.len() ==> evicted(a, max, i) == evicted(b, max, i),
        forall|i: int| 0 <= i < a.len() ==> measured(a, max, i) == measured(b, max, i),
{
    assert forall|n: int| 0 <= n <= a.len() implies seen_after(a.take(n), max) == seen_after(
        b.take(n),
        max,
    ) by {
        lemma_same_seen(a, b, max, j, n);
    }
    assert forall|i: int| 0 <= i < a.len() implies evicted(a, max, i) == evicted(b, max, i) by {
        lemma_same_seen(a, b, max, j, i + 1);
    }
    assert forall|i: int| 0 <= i < a.len() implies measured(a, max, i) == measured(b, max, i) by {
        lemma_same_seen(a, b, max, j, i);
    }
}

proof fn lemma_same_seen(a: Seq<nat>, b: Seq<nat>, max: nat, j: int, n: int)
    requires
        a.len() == b.len(),
        0 <= j < a.len(),
        0 <= n <= a.len(),
        forall|i: int| 0 <= i < a.len() && i != j ==> a[i] == b[i],
        !measured(a, max, j),
    ensures
        seen_after(a.take(n), max) == seen_after(b.take(n), max),
    decreases n,
{
    if n <= j {
        assert(a.take(n) =~= b.take(n));
    } else {
        lemma_same_seen(a, b, max, j, n - 1);
        assert(a.take(n).drop_last() =~= a.take(n - 1));
        assert(b.take(n).drop_last() =~= b.take(n - 1));
        if n - 1 == j {
            assert(a.take(j) =~= b.take(j));
        }
    }
}

/// What the size phase keeps stays within the budget.
pub proof fn lemma_size_retained_within_budget(entries: Seq<EntryModel>, max_total_size: u64)
    ensures
        total_size(sizes_of(size_retained(entries, Some(max_total_size)))) <= max_total_size,
{
    let max = max_total_size as nat;
    let sizes = sizes_of(entries);
    let k = retained_count(sizes, max) as int;
    lemma_retained_count(sizes, max);
    assert(sizes_of(entries.take(k)) =~= sizes.take(k));
    if k > 0 {
        assert(!evicted(sizes, max, k - 1));
    } else {
        assert(sizes.take(0) =~= Seq::<nat>::empty());
    }
    lemma_seen_is_total(sizes.take(k), max);
}

/// Nothing that the age phase keeps has outlived the maximum age.
proof fn lemma_age_retained_fresh(entries: Seq<EntryModel>, now: int, max_age: Option<u128>)
    ensures
        forall|i: int|
            0 <= i < age_retained(entries, now, max_age).len() ==> !age_expired(
                now,
                age_retained(entries, now, max_age)[i].modified as int,
                max_age,
            ),
    decreases entries.len(),
{
    if entries.len() > 0 {
        let kept = age_retained(entries.drop_last(), now, max_age);
        lemma_age_retained_fresh(entries.drop_last(), now, max_age);
        if !age_expired(now, entries.last().modified as int, max_age) {
            assert forall|i: int| 0 <= i < kept.len() + 1 implies !age_expired(
                now,
                kept.push(entries.last())[i].modified as int,
                max_age,
            ) by {
                if i < kept.len() {
                    assert(kept.push(entries.last())[i] == kept[i]);
                }
            }
        }
    }
}

/// The age phase keeps entries that are all fresh as they are.
proof fn lemma_age_retained_all_fresh(entries: Seq<EntryModel>, now: int, max_age: Option<u128>)
    requires
        forall|i: int|
            0 <= i < entries.len() ==> !age_expired(now, entries[i].modified as int, max_age),
    ensures
        age_retained(entries, now, max_age) == entries,
    decreases entries.len(),
{
    if entries.len() > 0 {
        lemma_age_retained_all_fresh(entries.drop_last(), now, max_age);
        assert(entries.drop_last().push(entries.last()) =~= entries);
    }
}

/// A second sweep, at the same time and with nothing changed in between,
/// deletes nothing: it keeps what the first one kept.
pub proof fn lemma_sweep_idempotent(entries: Seq<EntryModel>, now: int, policy: RetentionPolicy)
    ensures
        sweep_retained(sweep_retained(entries, now, policy), now, policy) == sweep_retained(
            entries,
            now,
            policy,
        ),
{
    let aged = age_retained(entries, now, policy.max_age);
    let kept = sweep_retained(entries, now, policy);
    lemma_age_retained_fresh(entries, now, policy.max_age);
    match policy.max_total_size {
        Some(m) => {
            let max = m as nat;
            let sizes = sizes_of(aged);
            let k = retained_count(sizes, max) as int;
            lemma_retained_count(sizes, max);
            assert(kept == aged.take(k));
            assert forall|i: int| 0 <= i < kept.len() implies !age_expired(
                now,
                kept[i].modified as int,
                policy.max_age,
            ) by {
                assert(kept[i] == aged[i]);
            }
            lemma_age_retained_all_fresh(kept, now, policy.max_age);
            let ksizes = sizes_of(kept);
            assert(ksizes =~= sizes.take(k));
            lemma_retained_count(ksizes, max);
            assert forall|i: int| 0 <= i < ksizes.len() implies !evicted(ksizes, max, i) by {
                lemma_evicted_prefix(sizes, max, k, i);
            }
            if retained_count(ksizes, max) < ksizes.len() {
                let c = retained_count(ksizes, max) as int;
                assert(!evicted(ksizes, max, c));
            }
            assert(kept.take(k) =~= kept);
        },
        None => {
            lemma_age_retained_all_fresh(kept, now, policy.max_age);
        },
    }
}

} // verus!
