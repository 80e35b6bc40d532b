use vstd::prelude::*;
use vstd::seq_lib::group_filter_ensures;
use vstd::seq_lib::seq_to_set_is_finite;
use vstd::set_lib::lemma_len_intersect;
use vstd::set_lib::lemma_len_union;

verus! {

broadcast use group_filter_ensures, seq_to_set_is_finite;

/// A point-in-time record of the top-level windows whose class name matched
/// the class filter. A handle is the opaque identifier the operating system
/// assigned to a window, held here as a plain integer; the order is the one
/// the enumeration yielded.
pub struct WindowSnapshot {
    pub handles: Vec<u64>,
}

/// The handles of `current` that `baseline` did not hold, in `current`'s
/// order: the windows created since the baseline was taken.
pub open spec fn new_windows_spec(current: Seq<u64>, baseline: Seq<u64>) -> Seq<u64> {
    current.filter(|h: u64| !baseline.contains(h))
}

impl WindowSnapshot {
    /// A snapshot is well formed when no handle occurs twice: the system
    /// enumerates each top-level window exactly once.
    pub open spec fn wf(self) -> bool {
        self.handles@.no_duplicates()
    }

    /// How many matching windows the snapshot holds.
    pub fn count(&self) -> (n: usize)
        ensures
            n == self.handles@.len(),
    {
        self.handles.len()
    }

    /// Whether `handle` was present when this snapshot was taken.
    pub fn contains_handle(&self, handle: u64) -> (present: bool)
        ensures
            present == self.handles@.contains(handle),
    {
        let mut i: usize = 0;
        while i < self.handles.len()
            invariant
                i <= self.handles@.len(),
                forall|j: int| 0 <= j < i ==> self.handles@[j] != handle,
            decreases self.handles@.len() - i,
        {
            if self.handles[i] == handle {
                proof {
                    assert(self.handles@[i as int] == handle);
                }
                return true;
            }
            i += 1;
        }
        false
    }

    /// The windows of `self` that the `baseline` snapshot did not hold,
    /// in enumeration order.
    pub fn new_windows(&self, baseline: &WindowSnapshot) -> (fresh: Vec<u64>)
        ensures
            fresh@ == new_windows_spec(self.handles@, baseline.handles@),
    {
        let mut fresh: Vec<u64> = Vec::new();
        let mut i: usize = 0;
        while i < self.handles.len()
            invariant
                i <= self.handles@.len(),
                fresh@ == new_windows_spec(self.handles@.take(i as int), baseline.handles@),
            decreases self.handles@.len() - i,
        {
            let h = self.handles[i];
            let fresh_handle = !baseline.contains_handle(h);
            if fresh_handle {
                fresh.push(h);
            }
            proof {
                reveal(Seq::filter);
                let stepped = self.handles@.take(i as int + 1);
                assert(stepped.drop_last() =~= self.handles@.take(i as int));
                assert(stepped.last() == h);
            }
            i += 1;
        }
        proof {
            assert(self.handles@.take(self.handles@.len() as int) =~= self.handles@);
        }
        fresh
    }
}

/// The fixed class filter: a window belongs to the target application
/// exactly when its class name contains this text.
pub fn class_filter() -> (filter: &'static str)
    ensures
        filter@ == "Wizard Graphical Client"@,
{
    "Wizard Graphical Client"
}

/// Whether `needle` occurs as one contiguous run inside `haystack`.
pub open spec fn is_substring_of(needle: Seq<u8>, haystack: Seq<u8>) -> bool {
    exists|k: int|
        0 <= k <= haystack.len() - needle.len() && #[trigger] haystack.subrange(
            k,
            k + needle.len() as int,
        ) == needle
}

/// Whether `haystack` matches `needle` at position `k`.
fn matches_at(haystack: &Vec<u8>, needle: &Vec<u8>, k: usize) -> (hit: bool)
    requires
        k + needle@.len() <= haystack@.len(),
    ensures
        hit == (haystack@.subrange(k as int, k as int + needle@.len() as int) == needle@),
{
    let ghost window = haystack@.subrange(k as int, k as int + needle@.len() as int);
    let stop = haystack.len();
    let mut j: usize = 0;
    while j < needle.len()
        invariant
            stop == haystack@.len(),
            k + needle@.len() <= haystack@.len(),
            j <= needle@.len(),
            window == haystack@.subrange(k as int, k as int + needle@.len() as int),
            forall|t: int| 0 <= t < j ==> haystack@[k + t] == needle@[t],
        decreases needle@.len() - j,
    {
        proof {
            assert(k + j < stop);
        }
        if haystack[k + j] != needle[j] {
            proof {
                assert(window[j as int] == haystack@[k + j]);
                assert(window != needle@);
            }
            return false;
        }
        j += 1;
    }
    proof {
        assert(window =~= needle@);
    }
    true
}

/// The inclusion rule of the window registry accessor: a window belongs in
/// a snapshot exactly when the bytes of its class name contain the class
/// filter as a substring.
pub fn class_name_matches(class_name: &Vec<u8>, filter: &Vec<u8>) -> (hit: bool)
    ensures
        hit == is_substring_of(filter@, class_name@),
{
    if filter.len() > class_name.len() {
        return false;
    }
    let last: usize = class_name.len() - filter.len();
    let mut k: usize = 0;
    while k <= last
        invariant
            filter@.len() <= class_name@.len(),
            last == class_name@.len() - filter@.len(),
            k <= last,
            forall|t: int|
                0 <= t < k ==> #[trigger] class_name@.subrange(t, t + filter@.len() as int)
                    != filter@,
        decreases last - k,
    {
        if matches_at(class_name, filter, k) {
            proof {
                assert(class_name@.subrange(k as int, k as int + filter@.len() as int)
                    == filter@);
            }
            return true;
        }
        if k == last {
            proof {
                assert forall|t: int|
                    0 <= t <= last as int implies #[trigger] class_name@.subrange(
                    t,
                    t + filter@.len() as int,
                ) != filter@ by {
                    if t < k as int {
                    } else {
                        assert(t == k as int);
                    }
                }
            }
            return false;
        }
        k += 1;
    }
    false
}

/// Whether no handle occurs twice in `handles`: the well-formedness check
/// for a snapshot handed in from outside the library.
pub fn distinct_handles(handles: &Vec<u64>) -> (ok: bool)
    ensures
        ok == handles@.no_duplicates(),
{
    let mut i: usize = 0;
    while i < handles.len()
        invariant
            i <= handles@.len(),
            forall|a: int, b: int| 0 <= a < i && a < b < handles@.len() ==> handles@[a]
                != handles@[b],
        decreases handles@.len() - i,
    {
        let mut j: usize = i + 1;
        while j < handles.len()
            invariant
                i < handles@.len(),
                i < j,
                forall|b: int| i < b < j ==> handles@[i as int] != handles@[b],
            decreases handles@.len() - j,
        {
            if handles[i] == handles[j] {
                return false;
            }
            j += 1;
        }
        i += 1;
    }
    true
}

/// Membership under the difference filter, and preservation of freedom
/// from duplicates: a handle survives the filter exactly when the original
/// sequence holds it and the predicate accepts it.
proof fn lemma_filter_membership(s: Seq<u64>, pred: spec_fn(u64) -> bool)
    ensures
        forall|h: u64| #[trigger] s.filter(pred).contains(h) <==> s.contains(h) && pred(h),
        s.no_duplicates() ==> s.filter(pred).no_duplicates(),
    decreases s.len(),
{
    reveal(Seq::filter);
    if s.len() == 0 {
        assert forall|h: u64| #[trigger] s.filter(pred).contains(h) <==> s.contains(h) && pred(
            h,
        ) by {
            assert(!s.contains(h));
        }
    } else {
        let sub = s.drop_last();
        let tail = s.last();
        lemma_filter_membership(sub, pred);
        assert forall|h: u64| s.contains(h) <==> sub.contains(h) || h == tail by {
            if s.contains(h) {
                let j = choose|j: int| 0 <= j < s.len() && s[j] == h;
                if j < s.len() - 1 {
                    assert(sub[j] == h);
                }
            }
            if sub.contains(h) {
                let j = choose|j: int| 0 <= j < sub.len() && sub[j] == h;
                assert(s[j] == h);
            }
            if h == tail {
                assert(s[s.len() - 1] == h);
            }
        }
        let fsub = sub.filter(pred);
        if pred(tail) {
            assert(s.filter(pred) == fsub.push(tail));
            assert forall|h: u64| #[trigger] fsub.push(tail).contains(h) <==> fsub.contains(h)
                || h == tail by {
                if fsub.push(tail).contains(h) {
                    let j = choose|j: int| 0 <= j < fsub.push(tail).len() && fsub.push(tail)[j]
                        == h;
                    if j < fsub.len() {
                        assert(fsub[j] == h);
                    }
                }
                if fsub.contains(h) {
                    let j = choose|j: int| 0 <= j < fsub.len() && fsub[j] == h;
                    assert(fsub.push(tail)[j] == h);
                }
                if h == tail {
                    assert(fsub.push(tail)[fsub.len() as int] == h);
                }
            }
            if s.no_duplicates() {
                assert(sub.no_duplicates());
                assert(!sub.contains(tail)) by {
                    if sub.contains(tail) {
                        let j = choose|j: int| 0 <= j < sub.len() && sub[j] == tail;
                        assert(s[j] == s[s.len() - 1]);
                    }
                }
                assert(!fsub.contains(tail));
                assert forall|a: int, b: int|
                    0 <= a < fsub.push(tail).len() && 0 <= b < fsub.push(tail).len() && a
                        != b implies fsub.push(tail)[a] != fsub.push(tail)[b] by {
                    if a < fsub.len() && b < fsub.len() {
                    } else if a == fsub.len() {
                        assert(fsub.contains(fsub[b]));
                    } else if b == fsub.len() {
                        assert(fsub.contains(fsub[a]));
                    }
                }
            }
        } else {
            assert(s.filter(pred) == fsub);
            if s.no_duplicates() {
                assert(sub.no_duplicates());
            }
        }
    }
}

/// A duplicate-free current snapshot yields a duplicate-free difference:
/// no window is ever reported as new twice.
pub proof fn lemma_new_windows_distinct(current: Seq<u64>, baseline: Seq<u64>)
    requires
        current.no_duplicates(),
    ensures
        new_windows_spec(current, baseline).no_duplicates(),
{
    lemma_filter_membership(current, |h: u64| !baseline.contains(h));
}

/// The difference never re-includes a baseline window: no handle of the
/// baseline snapshot is ever reported as new, whatever the current
/// snapshot holds.
pub proof fn lemma_new_windows_exclude_baseline(current: Seq<u64>, baseline: Seq<u64>)
    ensures
        forall|h: u64|
            baseline.contains(h) ==> !(#[trigger] new_windows_spec(current, baseline).contains(
                h,
            )),
{
    lemma_filter_membership(current, |h: u64| !baseline.contains(h));
}

/// Re-snapshotting an unchanged system yields nothing: the difference of a
/// snapshot with itself is empty.
pub proof fn lemma_rescan_baseline_empty(baseline: Seq<u64>)
    ensures
        new_windows_spec(baseline, baseline) == Seq::<u64>::empty(),
{
    lemma_filter_membership(baseline, |h: u64| !baseline.contains(h));
    let diff = new_windows_spec(baseline, baseline);
    if diff.len() > 0 {
        assert(diff.contains(diff[0]));
        assert(false);
    }
    assert(diff =~= Seq::<u64>::empty());
}

/// Counting the difference from below: when the current snapshot is free of
/// duplicates and holds `extra` more handles than the baseline's count, at
/// least `extra` of its handles are new.
pub proof fn lemma_new_windows_at_least(current: Seq<u64>, baseline: Seq<u64>, extra: nat)
    requires
        current.no_duplicates(),
        current.len() == baseline.len() + extra,
    ensures
        new_windows_spec(current, baseline).len() >= extra,
{
    let pred = |h: u64| !baseline.contains(h);
    let diff = current.filter(pred);
    lemma_filter_membership(current, pred);
    current.unique_seq_to_set();
    diff.unique_seq_to_set();
    baseline.lemma_cardinality_of_set();
    let cur_set = current.to_set();
    let base_set = baseline.to_set();
    assert(diff.to_set() =~= cur_set.difference(base_set));
    assert(cur_set =~= cur_set.intersect(base_set).union(cur_set.difference(base_set)));
    lemma_len_intersect::<u64>(base_set, cur_set);
    assert(base_set.intersect(cur_set) =~= cur_set.intersect(base_set));
    lemma_len_union::<u64>(cur_set.intersect(base_set), cur_set.difference(base_set));
}

/// The law behind a completed poll: with distinct handles, a current count
/// of exactly baseline plus target, and no more than target handles outside
/// the baseline, the difference holds exactly `target` windows — one per
/// configured account.
pub proof fn lemma_full_poll_yields_target_new_windows(
    current: Seq<u64>,
    baseline: Seq<u64>,
    target: nat,
)
    requires
        current.no_duplicates(),
        current.len() == baseline.len() + target,
        new_windows_spec(current, baseline).len() <= target,
    ensures
        new_windows_spec(current, baseline).len() == target,
{
    lemma_new_windows_at_least(current, baseline, target);
}

} // verus!
