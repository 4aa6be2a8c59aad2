//! Recent activity of each process, as the anomaly detector keeps it: when
//! each packet of a process was seen and how large it was, the latest
//! thousand per process, and the totals over the last minute.
use vstd::prelude::*;
use crate::text::{chars_equal, chars_of, string_of};

verus! {

/// The most samples kept per process.
pub const PROCESS_SAMPLE_LIMIT: usize = 1000;

/// One packet of a process: when it was seen (microseconds since the epoch)
/// and its size in bytes.
pub type Sample = (i64, usize);

/// The samples of `name` among `entries` (none when it has no entry).
pub open spec fn samples_for(entries: Seq<(Seq<char>, Seq<Sample>)>, name: Seq<char>) -> Seq<Sample>
    decreases entries.len(),
{
    if entries.len() == 0 {
        Seq::empty()
    } else if entries.last().0 == name {
        entries.last().1
    } else {
        samples_for(entries.drop_last(), name)
    }
}

/// The samples after one more: it comes last, and when the limit was
/// reached the oldest leaves.
pub open spec fn sampled(s: Seq<Sample>, x: Sample) -> Seq<Sample> {
    if s.len() >= PROCESS_SAMPLE_LIMIT {
        s.drop_first().push(x)
    } else {
        s.push(x)
    }
}

/// Whether a sample taken at `at` is less than a minute (in whole seconds)
/// old at `now`.
pub open spec fn within_minute(at: i64, now: i64) -> bool {
    now - at < 60_000_000
}

/// The number of samples within the last minute.
pub open spec fn recent_count(s: Seq<Sample>, now: i64) -> nat
    decreases s.len(),
{
    if s.len() == 0 {
        0
    } else {
        recent_count(s.drop_last(), now) + if within_minute(s.last().0, now) { 1nat } else { 0nat }
    }
}

/// The bytes of the samples within the last minute.
pub open spec fn recent_bytes(s: Seq<Sample>, now: i64) -> nat
    decreases s.len(),
{
    if s.len() == 0 {
        0
    } else {
        recent_bytes(s.drop_last(), now) + if within_minute(s.last().0, now) {
            s.last().1 as nat
        } else {
            0nat
        }
    }
}

struct ProcessSamples {
    name: String,
    samples: Vec<Sample>,
}

/// The samples of every process that sent packets.
pub struct ProcessActivity {
    processes: Vec<ProcessSamples>,
}

spec fn entries_of(v: Seq<ProcessSamples>) -> Seq<(Seq<char>, Seq<Sample>)> {
    v.map_values(|p: ProcessSamples| (p.name@, p.samples@))
}

spec fn well_kept(entries: Seq<(Seq<char>, Seq<Sample>)>) -> bool {
    &&& forall|i: int, j: int| 0 <= i < j < entries.len() ==> (#[trigger] entries[i]).0 != (#[trigger] entries[j]).0
    &&& forall|i: int| 0 <= i < entries.len() ==> (#[trigger] entries[i]).1.len() <= PROCESS_SAMPLE_LIMIT
}

proof fn lemma_samples_at(entries: Seq<(Seq<char>, Seq<Sample>)>, i: int)
    requires
        well_kept(entries),
        0 <= i < entries.len(),
    ensures
        samples_for(entries, entries[i].0) == entries[i].1,
    decreases entries.len(),
{
    if i < entries.len() - 1 {
        let init = entries.drop_last();
        assert(entries[i] == init[i]);
        assert(well_kept(init)) by {
            assert forall|a: int, b: int| 0 <= a < b < init.len() implies (#[trigger] init[a]).0
                != (#[trigger] init[b]).0 by {
                assert(init[a] == entries[a] && init[b] == entries[b]);
            }
            assert forall|a: int| 0 <= a < init.len() implies (#[trigger] init[a]).1.len()
                <= PROCESS_SAMPLE_LIMIT by {
                assert(init[a] == entries[a]);
            }
        }
        lemma_samples_at(init, i);
    }
}

proof fn lemma_samples_absent(entries: Seq<(Seq<char>, Seq<Sample>)>, name: Seq<char>)
    requires
        forall|i: int| 0 <= i < entries.len() ==> (#[trigger] entries[i]).0 != name,
    ensures
        samples_for(entries, name) == Seq::<Sample>::empty(),
    decreases entries.len(),
{
    if entries.len() > 0 {
        let init = entries.drop_last();
        assert forall|i: int| 0 <= i < init.len() implies (#[trigger] init[i]).0 != name by {
            assert(init[i] == entries[i]);
        }
        lemma_samples_absent(init, name);
    }
}

proof fn lemma_samples_update(
    entries: Seq<(Seq<char>, Seq<Sample>)>,
    i: int,
    s: Seq<Sample>,
    other: Seq<char>,
)
    requires
        well_kept(entries),
        0 <= i < entries.len(),
        other != entries[i].0,
    ensures
        samples_for(entries.update(i, (entries[i].0, s)), other) == samples_for(entries, other),
    decreases entries.len(),
{
    let upd = entries.update(i, (entries[i].0, s));
    if i < entries.len() - 1 {
        let init = entries.drop_last();
        assert(upd.drop_last() =~= init.update(i, (init[i].0, s)));
        assert(well_kept(init)) by {
            assert forall|a: int, b: int| 0 <= a < b < init.len() implies (#[trigger] init[a]).0
                != (#[trigger] init[b]).0 by {
                assert(init[a] == entries[a] && init[b] == entries[b]);
            }
            assert forall|a: int| 0 <= a < init.len() implies (#[trigger] init[a]).1.len()
                <= PROCESS_SAMPLE_LIMIT by {
                assert(init[a] == entries[a]);
            }
        }
        lemma_samples_update(init, i, s, other);
    } else {
        assert(upd.drop_last() =~= entries.drop_last());
    }
}

fn find_process(processes: &Vec<ProcessSamples>, process: &str) -> (r: usize)
    ensures
        r <= processes.len(),
        r < processes.len() ==> entries_of(processes@)[r as int].0 == process@,
        forall|j: int| 0 <= j < r ==> (#[trigger] entries_of(processes@)[j]).0 != process@,
{
    let ghost e = entries_of(processes@);
    let wanted = chars_of(process);
    let mut i: usize = 0;
    while i < processes.len()
        invariant
            i <= processes.len(),
            e == entries_of(processes@),
            wanted@ == process@,
            forall|j: int| 0 <= j < i ==> (#[trigger] e[j]).0 != process@,
        decreases processes.len() - i,
    {
        assert(e[i as int].0 == processes@[i as int].name@);
        if chars_equal(&chars_of(processes[i].name.as_str()), &wanted) {
            return i;
        }
        i = i + 1;
    }
    i
}

impl ProcessActivity {
    #[verifier::type_invariant]
    spec fn kept_well(self) -> bool {
        well_kept(entries_of(self.processes@))
    }

    /// The samples of `process`, oldest first (none for a process never seen).
    pub closed spec fn samples(&self, process: Seq<char>) -> Seq<Sample> {
        samples_for(entries_of(self.processes@), process)
    }

    /// No activity yet.
    pub fn new() -> (a: Self)
        ensures
            forall|p: Seq<char>| #[trigger] a.samples(p) == Seq::<Sample>::empty(),
    {
        let a = ProcessActivity { processes: Vec::new() };
        assert forall|p: Seq<char>| #[trigger] a.samples(p) == Seq::<Sample>::empty() by {
            assert(entries_of(a.processes@) =~= Seq::<(Seq<char>, Seq<Sample>)>::empty());
        }
        a
    }

    /// Notes a packet of `size` bytes from `process` seen at `at`; the
    /// process keeps its latest thousand samples.
    pub fn record(&mut self, process: &str, at: i64, size: usize)
        ensures
            final(self).samples(process@) == sampled(old(self).samples(process@), (at, size)),
            forall|p: Seq<char>| p != process@ ==> #[trigger] final(self).samples(p) == old(self).samples(p),
            final(self).samples(process@).len() <= PROCESS_SAMPLE_LIMIT,
    {
        proof {
            use_type_invariant(&*self);
        }
        let mut entries: Vec<ProcessSamples> = Vec::new();
        std::mem::swap(&mut entries, &mut self.processes);
        let ghost e0 = entries_of(entries@);
        assert(e0 == entries_of(old(self).processes@));
        let i = find_process(&entries, process);
        if i < entries.len() {
            assert(e0[i as int].0 == process@);
            let mut entry = entries.remove(i);
            let ghost old_samples = entry.samples@;
            assert(old_samples == e0[i as int].1);
            if entry.samples.len() >= PROCESS_SAMPLE_LIMIT {
                entry.samples.remove(0);
            }
            entry.samples.push((at, size));
            assert(entry.samples@ =~= sampled(old_samples, (at, size)));
            let ghost new_samples = entry.samples@;
            entries.insert(i, entry);
            proof {
                let e1 = entries_of(entries@);
                assert(e1 =~= e0.update(i as int, (process@, new_samples)));
                lemma_samples_at(e0, i as int);
                assert(well_kept(e1)) by {
                    assert forall|a: int, b: int| 0 <= a < b < e1.len() implies (#[trigger] e1[a]).0
                        != (#[trigger] e1[b]).0 by {
                        assert(e1[a].0 == e0[a].0 && e1[b].0 == e0[b].0);
                    }
                    assert forall|a: int| 0 <= a < e1.len() implies (#[trigger] e1[a]).1.len()
                        <= PROCESS_SAMPLE_LIMIT by {
                        if a != i {
                            assert(e1[a] == e0[a]);
                        }
                    }
                }
                lemma_samples_at(e1, i as int);
                assert forall|p: Seq<char>| p != process@ implies #[trigger] samples_for(e1, p)
                    == samples_for(e0, p) by {
                    lemma_samples_update(e0, i as int, new_samples, p);
                }
            }
            self.processes = entries;
        } else {
            let ghost fresh = seq![(at, size)];
            let mut samples: Vec<Sample> = Vec::new();
            samples.push((at, size));
            assert(samples@ =~= fresh);
            entries.push(ProcessSamples { name: string_of(process), samples });
            proof {
                let e1 = entries_of(entries@);
                assert(e1 =~= e0.push((process@, fresh)));
                assert(e1.drop_last() =~= e0);
                lemma_samples_absent(e0, process@);
                assert(sampled(Seq::<Sample>::empty(), (at, size)) =~= fresh);
                assert(well_kept(e1)) by {
                    assert forall|a: int, b: int| 0 <= a < b < e1.len() implies (#[trigger] e1[a]).0
                        != (#[trigger] e1[b]).0 by {
                        assert(e1[a] == e0[a]);
                        if b < e0.len() {
                            assert(e1[b] == e0[b]);
                        }
                    }
                    assert forall|a: int| 0 <= a < e1.len() implies (#[trigger] e1[a]).1.len()
                        <= PROCESS_SAMPLE_LIMIT by {
                        if a < e0.len() {
                            assert(e1[a] == e0[a]);
                        }
                    }
                }
            }
            self.processes = entries;
        }
    }

    /// The number of samples of `process` within the last minute before
    /// `now`, and their bytes.
    pub fn window(&self, process: &str, now: i64) -> (r: (u64, u128))
        ensures
            r.0 == recent_count(self.samples(process@), now),
            r.1 == recent_bytes(self.samples(process@), now),
    {
        proof {
            use_type_invariant(self);
        }
        let ghost e = entries_of(self.processes@);
        let i = find_process(&self.processes, process);
        if i == self.processes.len() {
            proof {
                lemma_samples_absent(e, process@);
            }
            return (0, 0);
        }
        proof {
            lemma_samples_at(e, i as int);
        }
        let samples = &self.processes[i].samples;
        let ghost s = samples@;
        assert(s == self.samples(process@));
        let mut count: u64 = 0;
        let mut bytes: u128 = 0;
        let mut k: usize = 0;
        while k < samples.len()
            invariant
                k <= samples.len(),
                s == samples@,
                s.len() <= PROCESS_SAMPLE_LIMIT,
                count == recent_count(s.take(k as int), now),
                bytes == recent_bytes(s.take(k as int), now),
                count <= k,
                bytes <= k * (usize::MAX as int),
                k <= PROCESS_SAMPLE_LIMIT,
            decreases samples.len() - k,
        {
            assert(s.take(k + 1).drop_last() =~= s.take(k as int));
            assert(s.take(k + 1).last() == s[k as int]);
            let (at, size) = samples[k];
            assert(bytes + size <= (k + 1) * (usize::MAX as int)) by (nonlinear_arith)
                requires
                    bytes <= k * (usize::MAX as int),
                    size <= usize::MAX,
            ;
            assert((k + 1) * (usize::MAX as int) <= 1000 * (usize::MAX as int)) by (nonlinear_arith)
                requires
                    k + 1 <= 1000,
            ;
            assert(bytes <= (k + 1) * (usize::MAX as int)) by (nonlinear_arith)
                requires
                    bytes <= k * (usize::MAX as int),
            ;
            if (now as i128) - (at as i128) < 60_000_000 {
                count = count + 1;
                bytes = bytes + size as u128;
            }
            k = k + 1;
        }
        assert(s.take(k as int) =~= s);
        (count, bytes)
    }
}

} // verus!
