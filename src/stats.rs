//! Per-policy timing statistics for one check run.

use vstd::prelude::*;
use vstd::string::StringExecFns;

verus! {

/// The cumulative time spent in one policy's batch calls.
#[derive(Debug, Clone)]
pub struct PolicyTime {
    /// The policy's name.
    pub name: String,
    /// Cumulative duration in microseconds (saturating).
    pub micros: u64,
}

/// The `(name, microseconds)` pairs of a list of timings.
pub open spec fn time_entries(v: Seq<PolicyTime>) -> Seq<(Seq<char>, u64)> {
    v.map_values(|t: PolicyTime| (t.name@, t.micros))
}

/// No name occurs twice.
pub open spec fn names_unique(e: Seq<(Seq<char>, u64)>) -> bool {
    forall|i: int, j: int| 0 <= i < e.len() && 0 <= j < e.len() && i != j ==> e[i].0 != e[j].0
}

/// The position of `name` among the entries, if any.
pub open spec fn position_of(e: Seq<(Seq<char>, u64)>, name: Seq<char>) -> Option<int> {
    if exists|i: int| 0 <= i < e.len() && e[i].0 == name {
        Some(choose|i: int| 0 <= i < e.len() && e[i].0 == name)
    } else {
        None
    }
}

/// The entries after adding `d` to `name`'s total: a new name is appended,
/// a known one has its total increased, saturating at `u64::MAX`.
pub open spec fn add_time(e: Seq<(Seq<char>, u64)>, name: Seq<char>, d: u64) -> Seq<
    (Seq<char>, u64),
> {
    match position_of(e, name) {
        Some(i) => e.update(i, (name, e[i].1.saturating_add(d))),
        None => e.push((name, d)),
    }
}

/// Cumulative handler and resolver durations per policy, and the number of
/// files considered.
#[derive(Debug)]
pub struct PerfStats {
    /// The number of eligible files in the run.
    pub total_files: usize,
    /// Handler totals, in order of first use.
    pub handler_times: Vec<PolicyTime>,
    /// Resolver totals, in order of first use.
    pub resolver_times: Vec<PolicyTime>,
}

impl PerfStats {
    /// Handler totals, in order of first use.
    pub open spec fn handler_entries(&self) -> Seq<(Seq<char>, u64)> {
        time_entries(self.handler_times@)
    }

    /// Resolver totals, in order of first use.
    pub open spec fn resolver_entries(&self) -> Seq<(Seq<char>, u64)> {
        time_entries(self.resolver_times@)
    }

    /// Each policy has at most one total of each kind.
    pub open spec fn wf(&self) -> bool {
        names_unique(self.handler_entries()) && names_unique(self.resolver_entries())
    }

    /// Empty statistics.
    pub fn new() -> (r: PerfStats)
        ensures
            r.wf(),
            r.total_files == 0,
            r.handler_entries() == Seq::<(Seq<char>, u64)>::empty(),
            r.resolver_entries() == Seq::<(Seq<char>, u64)>::empty(),
    {
        let r = PerfStats { total_files: 0, handler_times: Vec::new(), resolver_times: Vec::new() };
        assert(r.handler_entries() =~= Seq::empty());
        assert(r.resolver_entries() =~= Seq::empty());
        r
    }

    /// Adds `micros` to the handler total of `policy_name`.
    pub fn record_handler(&mut self, policy_name: &str, micros: u64)
        requires
            old(self).wf(),
        ensures
            final(self).wf(),
            final(self).total_files == old(self).total_files,
            final(self).handler_entries() == add_time(
                old(self).handler_entries(),
                policy_name@,
                micros,
            ),
            final(self).resolver_entries() == old(self).resolver_entries(),
    {
        add_to(&mut self.handler_times, policy_name, micros);
    }

    /// Adds `micros` to the resolver total of `policy_name`.
    pub fn record_resolver(&mut self, policy_name: &str, micros: u64)
        requires
            old(self).wf(),
        ensures
            final(self).wf(),
            final(self).total_files == old(self).total_files,
            final(self).resolver_entries() == add_time(
                old(self).resolver_entries(),
                policy_name@,
                micros,
            ),
            final(self).handler_entries() == old(self).handler_entries(),
    {
        add_to(&mut self.resolver_times, policy_name, micros);
    }

    /// The handler totals, longest first.
    pub fn handler_times_by_duration(&self) -> (r: Vec<PolicyTime>)
        ensures
            time_entries(r@).to_multiset() == self.handler_entries().to_multiset(),
            longest_first(time_entries(r@)),
    {
        by_duration(&self.handler_times)
    }

    /// The resolver totals, longest first.
    pub fn resolver_times_by_duration(&self) -> (r: Vec<PolicyTime>)
        ensures
            time_entries(r@).to_multiset() == self.resolver_entries().to_multiset(),
            longest_first(time_entries(r@)),
    {
        by_duration(&self.resolver_times)
    }
}

/// Adds `micros` to `name`'s entry, appending one if there is none.
fn add_to(times: &mut Vec<PolicyTime>, name: &str, micros: u64)
    requires
        names_unique(time_entries(old(times)@)),
    ensures
        names_unique(time_entries(final(times)@)),
        time_entries(final(times)@) == add_time(time_entries(old(times)@), name@, micros),
{
    let ghost e = time_entries(times@);
    let key = String::from_str(name);
    let mut i: usize = 0;
    while i < times.len()
        invariant
            i <= times@.len(),
            e == time_entries(times@),
            key@ == name@,
            times@ == old(times)@,
            names_unique(e),
            forall|j: int| 0 <= j < i ==> e[j].0 != name@,
        decreases times@.len() - i,
    {
        if times[i].name == key {
            proof {
                assert(e[i as int].0 == name@);
                let c = choose|j: int| 0 <= j < e.len() && e[j].0 == name@;
                assert(c == i);
            }
            let total = times[i].micros.saturating_add(micros);
            let entry = PolicyTime { name: times[i].name.clone(), micros: total };
            times.set(i, entry);
            assert(time_entries(times@) =~= add_time(e, name@, micros));
            assert(forall|j: int| 0 <= j < e.len() ==> time_entries(times@)[j].0 == e[j].0);
            return;
        }
        i = i + 1;
    }
    assert(position_of(e, name@) is None);
    times.push(PolicyTime { name: key, micros });
    assert(time_entries(times@) =~= add_time(e, name@, micros));
}

/// Durations never increase from one entry to the next.
pub open spec fn longest_first(e: Seq<(Seq<char>, u64)>) -> bool {
    forall|i: int, j: int| 0 <= i < j < e.len() ==> e[j].1 <= e[i].1
}

/// A copy of the timings, longest first (insertion sort; lists are short).
fn by_duration(times: &Vec<PolicyTime>) -> (r: Vec<PolicyTime>)
    ensures
        time_entries(r@).to_multiset() == time_entries(times@).to_multiset(),
        longest_first(time_entries(r@)),
{
    let mut out: Vec<PolicyTime> = Vec::new();
    let mut k: usize = 0;
    assert(time_entries(out@) =~= time_entries(times@.take(0)));
    while k < times.len()
        invariant
            k <= times@.len(),
            time_entries(out@).to_multiset() == time_entries(times@.take(k as int)).to_multiset(),
            longest_first(time_entries(out@)),
        decreases times@.len() - k,
    {
        let t = PolicyTime { name: times[k].name.clone(), micros: times[k].micros };
        let mut pos: usize = 0;
        while pos < out.len() && out[pos].micros >= t.micros
            invariant
                pos <= out@.len(),
                forall|j: int| 0 <= j < pos ==> out@[j].micros >= t.micros,
            decreases out@.len() - pos,
        {
            pos = pos + 1;
        }
        let ghost before = time_entries(out@);
        let ghost te = (t.name@, t.micros);
        proof {
            if pos < out@.len() {
                assert(forall|j: int| pos <= j < before.len() ==> before[j].1 <= before[pos as int].1);
            }
        }
        out.insert(pos, t);
        proof {
            assert(time_entries(out@) =~= before.insert(pos as int, te));
            before.insert_ensures(pos as int, te);
            vstd::seq_lib::to_multiset_insert(before, pos as int, te);
            let prefix = time_entries(times@.take(k as int));
            assert(time_entries(times@.take(k as int + 1)) =~= prefix.push(te));
            vstd::seq_lib::to_multiset_build(prefix, te);
            let after = time_entries(out@);
            assert forall|i: int, j: int| 0 <= i < j < after.len() implies after[j].1 <= after[i].1 by {
                if j < pos {
                } else if j == pos {
                } else if i < pos {
                    assert(after[j] == before[j - 1]);
                } else if i == pos {
                    assert(after[j] == before[j - 1]);
                } else {
                    assert(after[j] == before[j - 1]);
                    assert(after[i] == before[i - 1]);
                }
            }
        }
        k = k + 1;
    }
    assert(times@.take(times@.len() as int) =~= times@);
    out
}

} // verus!
