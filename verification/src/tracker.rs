//! Per-file download counters.
//!
//! The tracker maps a filename to the number of its successful downloads. A
//! filename enters the tracker on its first successful file open, with count
//! 1, and later opens of the same name increment in place. The entries keep
//! insertion order, which makes the "most downloaded" query deterministic:
//! among entries of equal count the earliest inserted wins.
//!
//! The callers serialize every read and update (one lock around the whole
//! tracker), so counts are exact under concurrency: the tracker itself is a
//! sequential structure and its contracts speak of one operation at a time.

use vstd::prelude::*;
use vstd::pervasive::VecAdditionalExecFns;
use vstd::slice::slice_to_vec;
use crate::bytes::bytes_equal;

verus! {

/// No two entries share a name.
pub open spec fn unique_names(s: Seq<(Seq<u8>, u64)>) -> bool {
    forall|i: int, j: int| 0 <= i < j < s.len() ==> s[i].0 != s[j].0
}

/// Every entry has been downloaded at least once.
pub open spec fn positive_counts(s: Seq<(Seq<u8>, u64)>) -> bool {
    forall|i: int| 0 <= i < s.len() ==> s[i].1 >= 1
}

/// Whether some entry is named `name`.
pub open spec fn spec_contains_name(s: Seq<(Seq<u8>, u64)>, name: Seq<u8>) -> bool {
    exists|i: int| 0 <= i < s.len() && s[i].0 == name
}

/// `c + 1`, capped at the counter's width.
pub open spec fn saturating_inc(c: u64) -> u64 {
    if c == u64::MAX {
        c
    } else {
        (c + 1) as u64
    }
}

/// The count recorded for `name`: the count of the first entry so named, or
/// 0 when there is none.
pub open spec fn spec_count_of(s: Seq<(Seq<u8>, u64)>, name: Seq<u8>) -> u64
    decreases s.len(),
{
    if s.len() == 0 {
        0
    } else if s[0].0 == name {
        s[0].1
    } else {
        spec_count_of(s.drop_first(), name)
    }
}

/// The entries after one download of `name` is recorded: the first entry so
/// named is incremented in place, and a missing name is appended with
/// count 1.
pub open spec fn spec_record(s: Seq<(Seq<u8>, u64)>, name: Seq<u8>) -> Seq<(Seq<u8>, u64)>
    decreases s.len(),
{
    if s.len() == 0 {
        seq![(name, 1u64)]
    } else if s[0].0 == name {
        seq![(s[0].0, saturating_inc(s[0].1))] + s.drop_first()
    } else {
        seq![s[0]] + spec_record(s.drop_first(), name)
    }
}

/// The entries after `k` downloads of `name` are recorded one by one.
pub open spec fn spec_record_n(s: Seq<(Seq<u8>, u64)>, name: Seq<u8>, k: nat) -> Seq<
    (Seq<u8>, u64),
>
    decreases k,
{
    if k == 0 {
        s
    } else {
        spec_record(spec_record_n(s, name, (k - 1) as nat), name)
    }
}

/// Entry `i` holds the greatest count, and every earlier entry holds a
/// strictly smaller one: `i` is the entry the "most downloaded" query
/// settles on.
pub open spec fn is_first_max(s: Seq<(Seq<u8>, u64)>, i: int) -> bool {
    &&& 0 <= i < s.len()
    &&& forall|j: int| 0 <= j < s.len() ==> s[j].1 <= s[i].1
    &&& forall|j: int| 0 <= j < i ==> s[j].1 < s[i].1
}

/// The download counters, one per filename, in insertion order.
pub struct FileUsageTracker {
    names: Vec<Vec<u8>>,
    counts: Vec<u64>,
}

impl View for FileUsageTracker {
    type V = Seq<(Seq<u8>, u64)>;

    closed spec fn view(&self) -> Seq<(Seq<u8>, u64)> {
        Seq::new(self.names@.len(), |i: int| (self.names@[i]@, self.counts@[i]))
    }
}

impl FileUsageTracker {
    /// The tracker's invariant: names unique, every count at least 1.
    pub closed spec fn well_formed(&self) -> bool {
        &&& self.names@.len() == self.counts@.len()
        &&& unique_names(self@)
        &&& positive_counts(self@)
    }

    /// What `well_formed` guarantees of the entries.
    pub proof fn lemma_well_formed(&self)
        requires
            self.well_formed(),
        ensures
            unique_names(self@),
            positive_counts(self@),
    {
    }

    /// An empty tracker.
    pub fn new() -> (t: FileUsageTracker)
        ensures
            t.well_formed(),
            t@ == Seq::<(Seq<u8>, u64)>::empty(),
    {
        let t = FileUsageTracker { names: Vec::new(), counts: Vec::new() };
        proof {
            assert(t@ =~= Seq::<(Seq<u8>, u64)>::empty());
        }
        t
    }

    /// How many filenames have been downloaded at least once.
    pub fn len(&self) -> (n: usize)
        requires
            self.well_formed(),
        ensures
            n == self@.len(),
    {
        self.names.len()
    }

    /// The count recorded for `name`, 0 when it was never downloaded.
    pub fn count_of(&self, name: &[u8]) -> (c: u64)
        requires
            self.well_formed(),
        ensures
            c == spec_count_of(self@, name@),
    {
        let n = self.names.len();
        let mut i: usize = 0;
        while i < n
            invariant
                i <= n,
                n == self.names@.len(),
                self.names@.len() == self.counts@.len(),
                forall|j: int| 0 <= j < i ==> self@[j].0 != name@,
            decreases n - i,
        {
            if bytes_equal(self.names[i].as_slice(), name) {
                proof {
                    lemma_count_skip(self@, name@, i as int);
                    assert(self@.skip(i as int)[0] == self@[i as int]);
                }
                return self.counts[i];
            }
            i += 1;
        }
        proof {
            lemma_count_skip(self@, name@, n as int);
            assert(self@.skip(n as int) =~= Seq::<(Seq<u8>, u64)>::empty());
        }
        0
    }

    /// Record one download of `name`.
    pub fn record_download(&mut self, name: &[u8])
        requires
            old(self).well_formed(),
        ensures
            final(self).well_formed(),
            final(self)@ == spec_record(old(self)@, name@),
    {
        let ghost s = self@;
        let n = self.names.len();
        let mut i: usize = 0;
        while i < n
            invariant
                i <= n,
                n == self.names@.len(),
                self.names@.len() == self.counts@.len(),
                self@ == s,
                s == old(self)@,
                self.well_formed(),
                forall|j: int| 0 <= j < i ==> self@[j].0 != name@,
            decreases n - i,
        {
            if bytes_equal(self.names[i].as_slice(), name) {
                let c = self.counts[i];
                let c2 = if c == u64::MAX {
                    c
                } else {
                    c + 1
                };
                self.counts.set(i, c2);
                proof {
                    lemma_record_found(s, name@, i as int);
                    assert(self@ =~= s.update(
                        i as int,
                        (s[i as int].0, saturating_inc(s[i as int].1)),
                    ));
                    assert forall|p: int, q: int|
                        0 <= p < q < self@.len() implies self@[p].0 != self@[q].0 by {
                        assert(self@[p].0 == s[p].0);
                        assert(self@[q].0 == s[q].0);
                    }
                }
                return ;
            }
            i += 1;
        }
        self.names.push(slice_to_vec(name));
        self.counts.push(1);
        proof {
            lemma_record_not_found(s, name@);
            assert(self@ =~= s.push((name@, 1u64)));
            assert forall|p: int, q: int|
                0 <= p < q < self@.len() implies self@[p].0 != self@[q].0 by {
                if q < s.len() {
                    assert(self@[p] == s[p]);
                    assert(self@[q] == s[q]);
                } else {
                    assert(self@[q].0 == name@);
                    assert(self@[p] == s[p]);
                }
            }
        }
    }

    /// The first entry with the greatest count, or `None` when nothing has
    /// been downloaded yet.
    pub fn most_downloaded(&self) -> (r: Option<(Vec<u8>, u64)>)
        requires
            self.well_formed(),
        ensures
            r is None <==> self@.len() == 0,
            r matches Some(p) ==> exists|i: int|
                is_first_max(self@, i) && p.0@ == self@[i].0 && p.1 == self@[i].1,
    {
        let n = self.names.len();
        if n == 0 {
            return None;
        }
        let mut best: usize = 0;
        let mut i: usize = 1;
        while i < n
            invariant
                best < i <= n,
                n == self.names@.len(),
                self.names@.len() == self.counts@.len(),
                forall|j: int| 0 <= j < i ==> self@[j].1 <= self@[best as int].1,
                forall|j: int| 0 <= j < best ==> self@[j].1 < self@[best as int].1,
            decreases n - i,
        {
            if self.counts[i] > self.counts[best] {
                best = i;
            }
            i += 1;
        }
        let name = slice_to_vec(self.names[best].as_slice());
        let count = self.counts[best];
        proof {
            assert(is_first_max(self@, best as int));
        }
        Some((name, count))
    }
}

/// Facts about a sequence with one element stuck on the front.
proof fn lemma_cons_facts(x: (Seq<u8>, u64), t: Seq<(Seq<u8>, u64)>)
    ensures
        (seq![x] + t).len() == 1 + t.len(),
        (seq![x] + t)[0] == x,
        (seq![x] + t).drop_first() == t,
{
    assert((seq![x] + t).drop_first() =~= t);
}

/// Recording a name that the first `i` entries do not carry leaves those
/// entries alone: the change happens in the remainder.
proof fn lemma_record_skip(s: Seq<(Seq<u8>, u64)>, name: Seq<u8>, i: int)
    requires
        0 <= i <= s.len(),
        forall|j: int| 0 <= j < i ==> s[j].0 != name,
    ensures
        spec_record(s, name) == s.take(i) + spec_record(s.skip(i), name),
    decreases i,
{
    if i == 0 {
        assert(s.skip(0) =~= s);
        assert(s.take(0) + spec_record(s, name) =~= spec_record(s, name));
    } else {
        lemma_record_skip(s.drop_first(), name, i - 1);
        lemma_cons_facts(s[0], spec_record(s.drop_first(), name));
        assert(s.drop_first().take(i - 1) =~= s.take(i).drop_first());
        assert(s.drop_first().skip(i - 1) =~= s.skip(i));
        assert(seq![s[0]] + (s.drop_first().take(i - 1) + spec_record(s.skip(i), name)) =~= s.take(
            i,
        ) + spec_record(s.skip(i), name));
    }
}

/// Recording a name first carried by entry `i` increments that entry in
/// place.
proof fn lemma_record_found(s: Seq<(Seq<u8>, u64)>, name: Seq<u8>, i: int)
    requires
        0 <= i < s.len(),
        s[i].0 == name,
        forall|j: int| 0 <= j < i ==> s[j].0 != name,
    ensures
        spec_record(s, name) == s.update(i, (s[i].0, saturating_inc(s[i].1))),
{
    lemma_record_skip(s, name, i);
    let rest = s.skip(i);
    assert(rest[0] == s[i]);
    lemma_cons_facts((rest[0].0, saturating_inc(rest[0].1)), rest.drop_first());
    assert(rest.drop_first() =~= s.skip(i + 1));
    assert(s.take(i) + (seq![(s[i].0, saturating_inc(s[i].1))] + s.skip(i + 1)) =~= s.update(
        i,
        (s[i].0, saturating_inc(s[i].1)),
    ));
}

/// Recording a name no entry carries appends it with count 1.
proof fn lemma_record_not_found(s: Seq<(Seq<u8>, u64)>, name: Seq<u8>)
    requires
        forall|j: int| 0 <= j < s.len() ==> s[j].0 != name,
    ensures
        spec_record(s, name) == s.push((name, 1u64)),
    decreases s.len(),
{
    if s.len() == 0 {
        assert(spec_record(s, name) =~= s.push((name, 1u64)));
    } else {
        assert(forall|j: int|
            0 <= j < s.drop_first().len() ==> #[trigger] s.drop_first()[j].0 == s[j + 1].0);
        lemma_record_not_found(s.drop_first(), name);
        lemma_cons_facts(s[0], spec_record(s.drop_first(), name));
        assert(seq![s[0]] + s.drop_first().push((name, 1u64)) =~= s.push((name, 1u64)));
    }
}

/// Recording a download moves the name's own count up by exactly one (up to
/// the counter's cap).
pub proof fn lemma_record_increments_count(s: Seq<(Seq<u8>, u64)>, name: Seq<u8>)
    ensures
        spec_count_of(spec_record(s, name), name) == saturating_inc(spec_count_of(s, name)),
    decreases s.len(),
{
    if s.len() == 0 {
        lemma_cons_facts((name, 1u64), Seq::empty());
        assert(spec_record(s, name) =~= seq![(name, 1u64)]);
    } else if s[0].0 == name {
        lemma_cons_facts((s[0].0, saturating_inc(s[0].1)), s.drop_first());
    } else {
        lemma_cons_facts(s[0], spec_record(s.drop_first(), name));
        lemma_record_increments_count(s.drop_first(), name);
    }
}

/// Recording a download of one name leaves every other name's count alone.
pub proof fn lemma_record_preserves_other_counts(
    s: Seq<(Seq<u8>, u64)>,
    name: Seq<u8>,
    other: Seq<u8>,
)
    requires
        other != name,
    ensures
        spec_count_of(spec_record(s, name), other) == spec_count_of(s, other),
    decreases s.len(),
{
    if s.len() == 0 {
        lemma_cons_facts((name, 1u64), Seq::empty());
        assert(spec_record(s, name) =~= seq![(name, 1u64)]);
        assert(spec_count_of(seq![(name, 1u64)].drop_first(), other) == 0);
    } else if s[0].0 == name {
        lemma_cons_facts((s[0].0, saturating_inc(s[0].1)), s.drop_first());
    } else {
        lemma_cons_facts(s[0], spec_record(s.drop_first(), name));
        lemma_record_preserves_other_counts(s.drop_first(), name, other);
    }
}

/// Serialized increments never lose a download: after `k` recorded downloads
/// of `name`, its count stands exactly `k` above where it started, however
/// the recording connections were interleaved, as long as the counter's cap
/// is not reached. Every other name's count is untouched.
pub proof fn lemma_repeated_records_count(s: Seq<(Seq<u8>, u64)>, name: Seq<u8>, k: nat)
    requires
        spec_count_of(s, name) + k <= u64::MAX,
    ensures
        spec_count_of(spec_record_n(s, name, k), name) == spec_count_of(s, name) + k,
        forall|other: Seq<u8>|
            other != name ==> spec_count_of(spec_record_n(s, name, k), other) == spec_count_of(
                s,
                other,
            ),
    decreases k,
{
    if k > 0 {
        lemma_repeated_records_count(s, name, (k - 1) as nat);
        let prev = spec_record_n(s, name, (k - 1) as nat);
        lemma_record_increments_count(prev, name);
        assert forall|other: Seq<u8>| other != name implies spec_count_of(
            spec_record_n(s, name, k),
            other,
        ) == spec_count_of(s, other) by {
            lemma_record_preserves_other_counts(prev, name, other);
        }
    }
}

/// A name without an entry has count 0.
pub proof fn lemma_count_of_absent(s: Seq<(Seq<u8>, u64)>, name: Seq<u8>)
    requires
        !spec_contains_name(s, name),
    ensures
        spec_count_of(s, name) == 0,
    decreases s.len(),
{
    if s.len() > 0 {
        assert(s[0].0 != name);
        assert(!spec_contains_name(s.drop_first(), name)) by {
            if spec_contains_name(s.drop_first(), name) {
                let i = choose|i: int|
                    0 <= i < s.drop_first().len() && s.drop_first()[i].0 == name;
                assert(s[i + 1].0 == name);
            }
        }
        lemma_count_of_absent(s.drop_first(), name);
    }
}

/// Recording a download keeps the tracker's invariant: names stay unique
/// and counts stay positive.
pub proof fn lemma_record_preserves_wf(s: Seq<(Seq<u8>, u64)>, name: Seq<u8>)
    requires
        unique_names(s),
        positive_counts(s),
    ensures
        unique_names(spec_record(s, name)),
        positive_counts(spec_record(s, name)),
{
    let out = spec_record(s, name);
    if spec_contains_name(s, name) {
        let i = choose|i: int| 0 <= i < s.len() && s[i].0 == name;
        assert(forall|j: int| 0 <= j < i ==> s[j].0 != name);
        lemma_record_found(s, name, i);
        assert forall|p: int, q: int| 0 <= p < q < out.len() implies out[p].0 != out[q].0 by {
            assert(out[p].0 == s[p].0);
            assert(out[q].0 == s[q].0);
        }
        assert forall|p: int| 0 <= p < out.len() implies out[p].1 >= 1 by {
            if p == i {
                assert(s[p].1 >= 1);
            } else {
                assert(out[p] == s[p]);
            }
        }
    } else {
        assert(forall|j: int| 0 <= j < s.len() ==> s[j].0 != name);
        lemma_record_not_found(s, name);
        assert forall|p: int, q: int| 0 <= p < q < out.len() implies out[p].0 != out[q].0 by {
            if q < s.len() {
                assert(out[p] == s[p]);
                assert(out[q] == s[q]);
            } else {
                assert(out[q].0 == name);
                assert(out[p] == s[p]);
            }
        }
    }
}

/// Any number of recorded downloads keeps the tracker's invariant.
pub proof fn lemma_record_n_preserves_wf(s: Seq<(Seq<u8>, u64)>, name: Seq<u8>, k: nat)
    requires
        unique_names(s),
        positive_counts(s),
    ensures
        unique_names(spec_record_n(s, name, k)),
        positive_counts(spec_record_n(s, name, k)),
    decreases k,
{
    if k > 0 {
        lemma_record_n_preserves_wf(s, name, (k - 1) as nat);
        lemma_record_preserves_wf(spec_record_n(s, name, (k - 1) as nat), name);
    }
}

/// An entry that strictly leads every other entry is the one the "most
/// downloaded" query settles on.
pub proof fn lemma_strict_leader_is_first_max(s: Seq<(Seq<u8>, u64)>, i: int)
    requires
        0 <= i < s.len(),
        forall|j: int| 0 <= j < s.len() && j != i ==> s[j].1 < s[i].1,
    ensures
        is_first_max(s, i),
{
}

/// Only one entry can be the first maximum.
pub proof fn lemma_first_max_unique(s: Seq<(Seq<u8>, u64)>, i: int, j: int)
    requires
        is_first_max(s, i),
        is_first_max(s, j),
    ensures
        i == j,
{
    if i < j {
        assert(s[i].1 < s[j].1);
        assert(s[j].1 <= s[i].1);
    } else if j < i {
        assert(s[j].1 < s[i].1);
        assert(s[i].1 <= s[j].1);
    }
}

/// With unique names, the count recorded for a name is the count of its one
/// entry.
pub proof fn lemma_count_is_entry(s: Seq<(Seq<u8>, u64)>, name: Seq<u8>, i: int)
    requires
        unique_names(s),
        0 <= i < s.len(),
        s[i].0 == name,
    ensures
        spec_count_of(s, name) == s[i].1,
{
    assert(forall|j: int| 0 <= j < i ==> s[j].0 != name);
    lemma_count_skip(s, name, i);
    assert(s.skip(i)[0] == s[i]);
}

/// The count of a name the first `i` entries do not carry is decided by the
/// remainder.
proof fn lemma_count_skip(s: Seq<(Seq<u8>, u64)>, name: Seq<u8>, i: int)
    requires
        0 <= i <= s.len(),
        forall|j: int| 0 <= j < i ==> s[j].0 != name,
    ensures
        spec_count_of(s, name) == spec_count_of(s.skip(i), name),
    decreases i,
{
    if i == 0 {
        assert(s.skip(0) =~= s);
    } else {
        lemma_count_skip(s.drop_first(), name, i - 1);
        assert(s.drop_first().skip(i - 1) =~= s.skip(i));
    }
}

} // verus!
