//! The running statistics store: per process, the exact totals of every sample
//! recorded so far, from which the running averages are read.

use std::collections::HashMap;
use vstd::prelude::*;

verus! {

broadcast use vstd::std_specs::hash::group_hash_axioms;

/// What is known of one process: the sum of its CPU samples, the sum of its
/// memory samples, and how many samples there were.
pub ghost struct Totals {
    pub cpu_total: nat,
    pub memory_total: nat,
    pub sample_count: nat,
}

impl Totals {
    /// The totals of a process that has not been seen.
    pub open spec fn unseen() -> Totals {
        Totals { cpu_total: 0, memory_total: 0, sample_count: 0 }
    }

    /// The totals after one more sample.
    pub open spec fn with_sample(self, cpu: u64, memory: u64) -> Totals {
        Totals {
            cpu_total: self.cpu_total + cpu as nat,
            memory_total: self.memory_total + memory as nat,
            sample_count: self.sample_count + 1,
        }
    }

    /// The mean of the CPU samples, rounded down to a whole unit.
    pub open spec fn mean_cpu(self) -> nat
        recommends
            self.sample_count > 0,
    {
        self.cpu_total / self.sample_count
    }

    /// The mean of the memory samples, rounded down to a whole unit.
    pub open spec fn mean_memory(self) -> nat
        recommends
            self.sample_count > 0,
    {
        self.memory_total / self.sample_count
    }

    /// Totals that some sequence of `u64` samples can have produced and that
    /// the store can hold: at least one sample, a count that fits in `u64`, and
    /// sums no larger than that many maximal samples.
    pub open spec fn representable(self) -> bool {
        &&& 1 <= self.sample_count <= u64::MAX
        &&& self.cpu_total <= self.sample_count * u64::MAX
        &&& self.memory_total <= self.sample_count * u64::MAX
    }
}

/// The totals that `store` holds for `process_id`; those of an unseen process
/// where it holds none.
pub open spec fn totals_of(store: Map<u32, Totals>, process_id: u32) -> Totals {
    if store.contains_key(process_id) {
        store[process_id]
    } else {
        Totals::unseen()
    }
}

/// The store after one sample of `process_id` has been recorded.
pub open spec fn recorded(store: Map<u32, Totals>, process_id: u32, cpu: u64, memory: u64) -> Map<
    u32,
    Totals,
> {
    store.insert(process_id, totals_of(store, process_id).with_sample(cpu, memory))
}

/// The accumulated statistics of one process.
#[derive(Clone, Copy, Debug, PartialEq, Eq)]
pub struct ProcessStatistics {
    pub cpu_total: u128,
    pub memory_total: u128,
    pub sample_count: u64,
}

impl View for ProcessStatistics {
    type V = Totals;

    open spec fn view(&self) -> Totals {
        Totals {
            cpu_total: self.cpu_total as nat,
            memory_total: self.memory_total as nat,
            sample_count: self.sample_count as nat,
        }
    }
}

impl ProcessStatistics {
    /// The running average of the CPU samples.
    pub fn average_cpu(&self) -> (average: u64)
        requires
            self@.representable(),
        ensures
            average == self@.mean_cpu(),
    {
        proof {
            lemma_mean_fits(self.cpu_total as nat, self.sample_count as nat);
        }
        (self.cpu_total / (self.sample_count as u128)) as u64
    }

    /// The running average of the memory samples.
    pub fn average_memory(&self) -> (average: u64)
        requires
            self@.representable(),
        ensures
            average == self@.mean_memory(),
    {
        proof {
            lemma_mean_fits(self.memory_total as nat, self.sample_count as nat);
        }
        (self.memory_total / (self.sample_count as u128)) as u64
    }
}

/// A sum of `count` samples, none above `u64::MAX`, has a mean that fits in `u64`.
proof fn lemma_mean_fits(total: nat, count: nat)
    requires
        count >= 1,
        total <= count * u64::MAX,
    ensures
        total / count <= u64::MAX,
{
    assert(total / count <= u64::MAX) by (nonlinear_arith)
        requires
            count >= 1,
            total <= count * u64::MAX,
    ;
}

/// The running statistics of every process seen so far, keyed by process
/// identifier. Entries are never removed.
pub struct StatisticsStore {
    entries: HashMap<u32, ProcessStatistics>,
}

impl View for StatisticsStore {
    type V = Map<u32, Totals>;

    closed spec fn view(&self) -> Map<u32, Totals> {
        self.entries@.map_values(|s: ProcessStatistics| s@)
    }
}

impl StatisticsStore {
    /// Every entry holds totals that samples can have produced.
    pub open spec fn wf(&self) -> bool {
        forall|process_id: u32| #[trigger]
            self@.contains_key(process_id) ==> self@[process_id].representable()
    }

    /// One more sample of `process_id` can be counted.
    pub open spec fn can_record(&self, process_id: u32) -> bool {
        totals_of(self@, process_id).sample_count < u64::MAX
    }

    /// A store that has seen no process.
    pub fn new() -> (store: StatisticsStore)
        ensures
            store@ == Map::<u32, Totals>::empty(),
            store.wf(),
    {
        let store = StatisticsStore { entries: HashMap::new() };
        assert(store@ =~= Map::<u32, Totals>::empty());
        store
    }

    /// The statistics of `process_id`, if it has been seen.
    pub fn get(&self, process_id: u32) -> (found: Option<ProcessStatistics>)
        ensures
            found is Some <==> self@.contains_key(process_id),
            found is Some ==> found->0@ == self@[process_id],
    {
        match self.entries.get(&process_id) {
            Some(statistics) => Some(*statistics),
            None => None,
        }
    }

    /// How many samples of `process_id` have been recorded.
    pub fn sample_count(&self, process_id: u32) -> (count: u64)
        ensures
            count == totals_of(self@, process_id).sample_count,
    {
        match self.entries.get(&process_id) {
            Some(statistics) => statistics.sample_count,
            None => 0,
        }
    }

    /// Records one sample of `process_id` and returns its running averages of
    /// CPU and memory, the new sample included. A process seen for the first
    /// time starts from no samples, so its averages are the sample itself.
    pub fn record(&mut self, process_id: u32, cpu: u64, memory: u64) -> (averages: (u64, u64))
        requires
            old(self).wf(),
            old(self).can_record(process_id),
        ensures
            final(self).wf(),
            final(self)@ == recorded(old(self)@, process_id, cpu, memory),
            averages.0 == final(self)@[process_id].mean_cpu(),
            averages.1 == final(self)@[process_id].mean_memory(),
            !old(self)@.contains_key(process_id) ==> {
                &&& averages.0 == cpu
                &&& averages.1 == memory
                &&& final(self)@[process_id].sample_count == 1
            },
    {
        let previous = match self.entries.get(&process_id) {
            Some(statistics) => *statistics,
            None => ProcessStatistics { cpu_total: 0, memory_total: 0, sample_count: 0 },
        };
        assert(previous@ == totals_of(self@, process_id));
        assert(self@.contains_key(process_id) ==> previous@.representable());
        assert(previous.cpu_total <= previous.sample_count * u64::MAX);
        assert(previous.memory_total <= previous.sample_count * u64::MAX);
        let updated = ProcessStatistics {
            cpu_total: previous.cpu_total + cpu as u128,
            memory_total: previous.memory_total + memory as u128,
            sample_count: previous.sample_count + 1,
        };
        assert(updated@ == previous@.with_sample(cpu, memory));
        assert(updated@.representable());
        self.entries.insert(process_id, updated);
        assert(self@ =~= recorded(old(self)@, process_id, cpu, memory));
        (updated.average_cpu(), updated.average_memory())
    }
}

/// The sum of the CPU values of `samples`, pairs of a CPU and a memory value.
pub open spec fn cpu_sum(samples: Seq<(u64, u64)>) -> nat
    decreases samples.len(),
{
    if samples.len() == 0 {
        0
    } else {
        cpu_sum(samples.drop_last()) + samples.last().0 as nat
    }
}

/// The sum of the memory values of `samples`.
pub open spec fn memory_sum(samples: Seq<(u64, u64)>) -> nat
    decreases samples.len(),
{
    if samples.len() == 0 {
        0
    } else {
        memory_sum(samples.drop_last()) + samples.last().1 as nat
    }
}

/// The store after `samples` have been recorded for `process_id`, one after
/// the other.
pub open spec fn recorded_samples(
    store: Map<u32, Totals>,
    process_id: u32,
    samples: Seq<(u64, u64)>,
) -> Map<u32, Totals>
    decreases samples.len(),
{
    if samples.len() == 0 {
        store
    } else {
        recorded(
            recorded_samples(store, process_id, samples.drop_last()),
            process_id,
            samples.last().0,
            samples.last().1,
        )
    }
}

/// Recording adds up: after `samples` have been recorded for a process, its
/// totals are those before plus the sums of the samples, and its count is the
/// one before plus their number. No other process is touched.
pub proof fn lemma_totals_are_sums(
    store: Map<u32, Totals>,
    process_id: u32,
    samples: Seq<(u64, u64)>,
)
    ensures
        totals_of(recorded_samples(store, process_id, samples), process_id) == (Totals {
            cpu_total: totals_of(store, process_id).cpu_total + cpu_sum(samples),
            memory_total: totals_of(store, process_id).memory_total + memory_sum(samples),
            sample_count: totals_of(store, process_id).sample_count + samples.len(),
        }),
        forall|other: u32|
            other != process_id ==> totals_of(
                recorded_samples(store, process_id, samples),
                other,
            ) == totals_of(store, other),
    decreases samples.len(),
{
    if samples.len() > 0 {
        lemma_totals_are_sums(store, process_id, samples.drop_last());
    }
}

/// The running average is the arithmetic mean: after `samples` have been
/// recorded for a process not seen before, its sample count is their number,
/// its totals are their sums, and each average is the sum divided by the
/// number, rounded down: the largest whole number that, multiplied by the
/// number of samples, does not pass the sum.
pub proof fn lemma_average_is_arithmetic_mean(
    store: Map<u32, Totals>,
    process_id: u32,
    samples: Seq<(u64, u64)>,
)
    requires
        !store.contains_key(process_id),
        samples.len() > 0,
    ensures
        recorded_samples(store, process_id, samples).contains_key(process_id),
        ({
            let after = recorded_samples(store, process_id, samples)[process_id];
            let count = samples.len();
            &&& after.sample_count == count
            &&& after.cpu_total == cpu_sum(samples)
            &&& after.memory_total == memory_sum(samples)
            &&& after.mean_cpu() == cpu_sum(samples) / count
            &&& after.mean_memory() == memory_sum(samples) / count
            &&& after.mean_cpu() * count <= cpu_sum(samples) < (after.mean_cpu() + 1) * count
            &&& after.mean_memory() * count <= memory_sum(samples) < (after.mean_memory() + 1)
                * count
        }),
{
    lemma_totals_are_sums(store, process_id, samples);
    let count = samples.len();
    lemma_mean_brackets_sum(cpu_sum(samples), count);
    lemma_mean_brackets_sum(memory_sum(samples), count);
}

/// A quotient rounded down, times the divisor, does not pass the dividend,
/// and the next whole number does.
proof fn lemma_mean_brackets_sum(total: nat, count: nat)
    requires
        count > 0,
    ensures
        (total / count) * count <= total < (total / count + 1) * count,
{
    assert((total / count) * count <= total < (total / count + 1) * count) by (nonlinear_arith)
        requires
            count > 0,
    ;
}

/// The sums of two runs of samples, one after the other, are the sums of the
/// runs added up.
pub proof fn lemma_sums_of_runs(first: Seq<(u64, u64)>, second: Seq<(u64, u64)>)
    ensures
        cpu_sum(first + second) == cpu_sum(first) + cpu_sum(second),
        memory_sum(first + second) == memory_sum(first) + memory_sum(second),
    decreases second.len(),
{
    if second.len() == 0 {
        assert(first + second =~= first);
    } else {
        assert((first + second).drop_last() =~= first + second.drop_last());
        assert((first + second).last() == second.last());
        lemma_sums_of_runs(first, second.drop_last());
    }
}

/// The order of the samples does not matter to the sums, and so not to the
/// averages: two runs of samples give the same sums whichever comes first.
pub proof fn lemma_sums_ignore_order(first: Seq<(u64, u64)>, second: Seq<(u64, u64)>)
    ensures
        cpu_sum(first + second) == cpu_sum(second + first),
        memory_sum(first + second) == memory_sum(second + first),
{
    lemma_sums_of_runs(first, second);
    lemma_sums_of_runs(second, first);
}

/// Nothing is forgotten: recording a sample removes no process from the
/// store and lowers no sample count.
pub proof fn lemma_counts_only_grow(
    store: Map<u32, Totals>,
    process_id: u32,
    cpu: u64,
    memory: u64,
    other: u32,
)
    ensures
        store.contains_key(other) ==> recorded(store, process_id, cpu, memory).contains_key(other),
        totals_of(recorded(store, process_id, cpu, memory), other).sample_count >= totals_of(
            store,
            other,
        ).sample_count,
        totals_of(recorded(store, process_id, cpu, memory), process_id).sample_count == totals_of(
            store,
            process_id,
        ).sample_count + 1,
{
}

} // verus!
