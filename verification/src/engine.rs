//! The ranking and aggregation engine: one tick turns the processes sampled
//! just now into the rows to show, and keeps the running statistics.

use crate::identity::{process_user, uid_of_status, unknown_user};
use crate::ranking::{
    indices, lemma_ranking_is_sorted, lemma_ranking_is_stable, lemma_ranking_orders_every_index,
    rank_by_cpu, ranking, shown,
};
use crate::statistics::{recorded, totals_of, StatisticsStore, Totals};
use vstd::prelude::*;

verus! {

/// One process as sampled at the start of a tick.
#[derive(Clone, Debug, PartialEq, Eq)]
pub struct ProcessSnapshot {
    /// The identifier under which the operating system knows the process.
    pub process_id: u32,
    /// The name of the process.
    pub name: String,
    /// CPU use since the last sample, in hundredths of a percent.
    pub cpu_hundredths: u64,
    /// Resident memory, in bytes.
    pub resident_memory_bytes: u64,
    /// The text of the process's status record, which names its owner; `None`
    /// where it could not be read.
    pub status: Option<String>,
}

/// The content of a `ProcessSnapshot`.
pub ghost struct SnapshotView {
    pub process_id: u32,
    pub name: Seq<char>,
    pub cpu_hundredths: u64,
    pub resident_memory_bytes: u64,
    pub status: Option<Seq<char>>,
}

impl View for ProcessSnapshot {
    type V = SnapshotView;

    open spec fn view(&self) -> SnapshotView {
        SnapshotView {
            process_id: self.process_id,
            name: self.name@,
            cpu_hundredths: self.cpu_hundredths,
            resident_memory_bytes: self.resident_memory_bytes,
            status: match self.status {
                Some(text) => Some(text@),
                None => None,
            },
        }
    }
}

/// One row of the display.
#[derive(Clone, Debug, PartialEq, Eq)]
pub struct RankedRow {
    /// The name of the process.
    pub name: String,
    /// The name of the user who owns the process.
    pub user_name: String,
    /// CPU use at this tick, in hundredths of a percent.
    pub cpu_hundredths: u64,
    /// Resident memory at this tick, in hundredths of a megabyte.
    pub memory_hundredths: u64,
    /// The running average of the CPU use, in hundredths of a percent.
    pub average_cpu_hundredths: u64,
}

/// The content of a `RankedRow`.
pub ghost struct RowView {
    pub name: Seq<char>,
    pub user_name: Seq<char>,
    pub cpu_hundredths: u64,
    pub memory_hundredths: u64,
    pub average_cpu_hundredths: u64,
}

impl View for RankedRow {
    type V = RowView;

    open spec fn view(&self) -> RowView {
        RowView {
            name: self.name@,
            user_name: self.user_name@,
            cpu_hundredths: self.cpu_hundredths,
            memory_hundredths: self.memory_hundredths,
            average_cpu_hundredths: self.average_cpu_hundredths,
        }
    }
}

/// The contents of a sequence of snapshots.
pub open spec fn snapshot_views(snapshots: Seq<ProcessSnapshot>) -> Seq<SnapshotView> {
    snapshots.map_values(|snapshot: ProcessSnapshot| snapshot@)
}

/// The contents of a sequence of rows.
pub open spec fn row_views(rows: Seq<RankedRow>) -> Seq<RowView> {
    rows.map_values(|row: RankedRow| row@)
}

/// The contents of a sequence of strings.
pub open spec fn string_views(strings: Seq<String>) -> Seq<Seq<char>> {
    strings.map_values(|string: String| string@)
}

/// A memory size in hundredths of a megabyte (of 1,048,576 bytes), rounded to
/// the nearest hundredth, a half upwards.
pub open spec fn megabyte_hundredths(bytes: u64) -> u64 {
    ((bytes as nat * 100 + 524288) / 1048576) as u64
}

/// The CPU values of `snapshots`, in the order in which they were sampled.
pub open spec fn cpu_keys(snapshots: Seq<SnapshotView>) -> Seq<u64> {
    snapshots.map_values(|snapshot: SnapshotView| snapshot.cpu_hundredths)
}

/// The store after each of `snapshots` has been recorded in turn.
pub open spec fn recorded_all(store: Map<u32, Totals>, snapshots: Seq<SnapshotView>) -> Map<
    u32,
    Totals,
>
    decreases snapshots.len(),
{
    if snapshots.len() == 0 {
        store
    } else {
        recorded(
            recorded_all(store, snapshots.drop_last()),
            snapshots.last().process_id,
            snapshots.last().cpu_hundredths,
            megabyte_hundredths(snapshots.last().resident_memory_bytes),
        )
    }
}

/// Every one of `snapshots` can be counted when its turn comes: no sample
/// count would pass `u64::MAX`.
pub open spec fn accepts(store: Map<u32, Totals>, snapshots: Seq<SnapshotView>) -> bool {
    forall|i: int|
        0 <= i < snapshots.len() ==> totals_of(
            #[trigger] recorded_all(store, snapshots.take(i)),
            snapshots[i].process_id,
        ).sample_count < u64::MAX
}

/// The running CPU average of the process of snapshot `i`, as it stands once
/// that snapshot has been recorded.
pub open spec fn average_at(store: Map<u32, Totals>, snapshots: Seq<SnapshotView>, i: int) -> nat {
    totals_of(recorded_all(store, snapshots.take(i + 1)), snapshots[i].process_id).mean_cpu()
}

/// The row that shows snapshot `i`, whose owner is `users[i]`.
pub open spec fn row_for(
    store: Map<u32, Totals>,
    snapshots: Seq<SnapshotView>,
    users: Seq<Seq<char>>,
    i: int,
) -> RowView {
    RowView {
        name: snapshots[i].name,
        user_name: users[i],
        cpu_hundredths: snapshots[i].cpu_hundredths,
        memory_hundredths: megabyte_hundredths(snapshots[i].resident_memory_bytes),
        average_cpu_hundredths: average_at(store, snapshots, i) as u64,
    }
}

/// The rows of one tick: a row for each of the first `limit` snapshots of the
/// ranking by CPU value, in that order.
pub open spec fn ranked_rows(
    store: Map<u32, Totals>,
    snapshots: Seq<SnapshotView>,
    users: Seq<Seq<char>>,
    limit: int,
) -> Seq<RowView> {
    ranking(cpu_keys(snapshots)).take(shown(limit, snapshots.len() as int)).map_values(
        |i: int| row_for(store, snapshots, users, i),
    )
}

/// Converts a memory size in bytes to hundredths of a megabyte.
pub fn to_megabyte_hundredths(bytes: u64) -> (hundredths: u64)
    ensures
        hundredths == megabyte_hundredths(bytes),
{
    let scaled: u128 = bytes as u128 * 100 + 524288;
    (scaled / 1048576) as u64
}

/// Records every snapshot in the store, in the order given, and returns for
/// each the running CPU average of its process, that snapshot included.
pub fn record_all(store: &mut StatisticsStore, snapshots: &Vec<ProcessSnapshot>) -> (averages: Vec<
    u64,
>)
    requires
        old(store).wf(),
        accepts(old(store)@, snapshot_views(snapshots@)),
    ensures
        final(store).wf(),
        final(store)@ == recorded_all(old(store)@, snapshot_views(snapshots@)),
        averages@.len() == snapshots@.len(),
        forall|i: int|
            0 <= i < snapshots@.len() ==> #[trigger] averages@[i] == average_at(
                old(store)@,
                snapshot_views(snapshots@),
                i,
            ),
{
    let ghost initial = store@;
    let ghost views = snapshot_views(snapshots@);
    let mut averages: Vec<u64> = Vec::new();
    let mut i: usize = 0;
    proof {
        assert(views.take(0) =~= Seq::<SnapshotView>::empty());
    }
    while i < snapshots.len()
        invariant
            i <= snapshots.len(),
            views == snapshot_views(snapshots@),
            accepts(initial, views),
            store.wf(),
            store@ == recorded_all(initial, views.take(i as int)),
            averages@.len() == i,
            forall|j: int| 0 <= j < i ==> #[trigger] averages@[j] == average_at(initial, views, j),
        decreases snapshots.len() - i,
    {
        let snapshot = &snapshots[i];
        proof {
            assert(views[i as int] == snapshot@);
            assert(views.take(i + 1).drop_last() =~= views.take(i as int));
            assert(views.take(i + 1).last() == views[i as int]);
            let before = recorded_all(initial, views.take(i as int));
            assert(totals_of(before, views[i as int].process_id).sample_count < u64::MAX);
        }
        let memory: u64 = to_megabyte_hundredths(snapshot.resident_memory_bytes);
        let (average_cpu, _) = store.record(snapshot.process_id, snapshot.cpu_hundredths, memory);
        averages.push(average_cpu);
        i = i + 1;
    }
    proof {
        assert(views.take(views.len() as int) =~= views);
    }
    averages
}

/// Room for a whole tick: the sample count of every process among
/// `snapshots` could grow by the number of snapshots without passing
/// `u64::MAX`.
pub open spec fn headroom(store: Map<u32, Totals>, snapshots: Seq<SnapshotView>) -> bool {
    forall|i: int|
        0 <= i < snapshots.len() ==> totals_of(
            store,
            (#[trigger] snapshots[i]).process_id,
        ).sample_count + snapshots.len() <= u64::MAX
}

/// Recording `snapshots` raises the sample count of a process by at most
/// their number.
pub proof fn lemma_counts_grow_slowly(
    store: Map<u32, Totals>,
    snapshots: Seq<SnapshotView>,
    process_id: u32,
)
    ensures
        totals_of(recorded_all(store, snapshots), process_id).sample_count <= totals_of(
            store,
            process_id,
        ).sample_count + snapshots.len(),
    decreases snapshots.len(),
{
    if snapshots.len() > 0 {
        lemma_counts_grow_slowly(store, snapshots.drop_last(), process_id);
    }
}

/// A store with room for a whole tick accepts every snapshot of the tick.
pub proof fn lemma_headroom_suffices(store: Map<u32, Totals>, snapshots: Seq<SnapshotView>)
    requires
        headroom(store, snapshots),
    ensures
        accepts(store, snapshots),
{
    assert forall|i: int| 0 <= i < snapshots.len() implies totals_of(
        #[trigger] recorded_all(store, snapshots.take(i)),
        snapshots[i].process_id,
    ).sample_count < u64::MAX by {
        lemma_counts_grow_slowly(store, snapshots.take(i), snapshots[i].process_id);
    }
}

/// Whether the store has room for a whole tick of `snapshots`.
pub fn has_headroom(store: &StatisticsStore, snapshots: &Vec<ProcessSnapshot>) -> (ok: bool)
    ensures
        ok == headroom(store@, snapshot_views(snapshots@)),
        ok ==> accepts(store@, snapshot_views(snapshots@)),
{
    let ghost views = snapshot_views(snapshots@);
    let length: usize = snapshots.len();
    let mut i: usize = 0;
    while i < length
        invariant
            i <= length,
            length == snapshots@.len(),
            views == snapshot_views(snapshots@),
            forall|j: int|
                0 <= j < i ==> totals_of(store@, (#[trigger] views[j]).process_id).sample_count
                    + length <= u64::MAX,
        decreases length - i,
    {
        let count: u64 = store.sample_count(snapshots[i].process_id);
        proof {
            assert(views[i as int] == snapshots@[i as int]@);
        }
        if length as u64 > u64::MAX - count {
            return false;
        }
        i = i + 1;
    }
    proof {
        lemma_headroom_suffices(store@, views);
    }
    true
}

/// Whether `users` can be the owners' names of `snapshots`: one name for each
/// snapshot, and `Unknown` wherever the status record is missing or names no
/// user identifier.
pub open spec fn resolved(snapshots: Seq<SnapshotView>, users: Seq<Seq<char>>) -> bool {
    &&& users.len() == snapshots.len()
    &&& forall|i: int|
        0 <= i < snapshots.len() && (snapshots[i].status is None || uid_of_status(
            snapshots[i].status->0,
        ) is None) ==> #[trigger] users[i] == unknown_user()
}

/// A tick shows as many rows as the limit allows, and never more than there
/// are snapshots.
pub proof fn lemma_ranked_rows_length(
    store: Map<u32, Totals>,
    snapshots: Seq<SnapshotView>,
    users: Seq<Seq<char>>,
    limit: int,
)
    requires
        0 <= limit,
    ensures
        ranked_rows(store, snapshots, users, limit).len() == shown(limit, snapshots.len() as int),
        ranked_rows(store, snapshots, users, limit).len() <= limit,
{
    lemma_ranking_orders_every_index(cpu_keys(snapshots));
}

/// The rows of a tick are in order of CPU value, largest first.
pub proof fn lemma_ranked_rows_sorted(
    store: Map<u32, Totals>,
    snapshots: Seq<SnapshotView>,
    users: Seq<Seq<char>>,
    limit: int,
)
    requires
        0 <= limit,
    ensures
        forall|a: int, b: int|
            0 <= a <= b < ranked_rows(store, snapshots, users, limit).len() ==> (#[trigger] ranked_rows(
                store,
                snapshots,
                users,
                limit,
            )[a]).cpu_hundredths >= (#[trigger] ranked_rows(
                store,
                snapshots,
                users,
                limit,
            )[b]).cpu_hundredths,
{
    let keys = cpu_keys(snapshots);
    let rows = ranked_rows(store, snapshots, users, limit);
    lemma_ranking_orders_every_index(keys);
    lemma_ranking_is_sorted(keys);
    assert forall|a: int, b: int| 0 <= a <= b < rows.len() implies (#[trigger] rows[a]).cpu_hundredths
        >= (#[trigger] rows[b]).cpu_hundredths by {
        let i = ranking(keys)[a];
        let j = ranking(keys)[b];
        assert(rows[a] == row_for(store, snapshots, users, i));
        assert(rows[b] == row_for(store, snapshots, users, j));
        assert(keys[i] >= keys[j]);
    }
}

/// The rows of a tick keep snapshots of equal CPU value in the order in which
/// they were sampled: where rows `a` and `b`, `a` above `b`, show snapshots
/// `i` and `j` of the same CPU value, `i` was sampled before `j`.
pub proof fn lemma_ranked_rows_stable(
    store: Map<u32, Totals>,
    snapshots: Seq<SnapshotView>,
    users: Seq<Seq<char>>,
    limit: int,
)
    requires
        0 <= limit,
    ensures
        forall|a: int, b: int|
            #![trigger ranking(cpu_keys(snapshots))[a], ranking(cpu_keys(snapshots))[b]]
            0 <= a < b < ranked_rows(store, snapshots, users, limit).len() ==> {
                let i = ranking(cpu_keys(snapshots))[a];
                let j = ranking(cpu_keys(snapshots))[b];
                &&& 0 <= i < snapshots.len()
                &&& 0 <= j < snapshots.len()
                &&& ranked_rows(store, snapshots, users, limit)[a] == row_for(
                    store,
                    snapshots,
                    users,
                    i,
                )
                &&& ranked_rows(store, snapshots, users, limit)[b] == row_for(
                    store,
                    snapshots,
                    users,
                    j,
                )
                &&& snapshots[i].cpu_hundredths == snapshots[j].cpu_hundredths ==> i < j
            },
{
    let keys = cpu_keys(snapshots);
    lemma_ranking_orders_every_index(keys);
    lemma_ranking_is_stable(keys);
}

/// The CPU values of `snapshots`, in the order given.
pub fn cpu_values(snapshots: &Vec<ProcessSnapshot>) -> (keys: Vec<u64>)
    ensures
        keys@ == cpu_keys(snapshot_views(snapshots@)),
{
    let mut keys: Vec<u64> = Vec::new();
    let mut i: usize = 0;
    while i < snapshots.len()
        invariant
            i <= snapshots.len(),
            keys@ == cpu_keys(snapshot_views(snapshots@)).take(i as int),
        decreases snapshots.len() - i,
    {
        keys.push(snapshots[i].cpu_hundredths);
        i = i + 1;
        proof {
            assert(keys@ =~= cpu_keys(snapshot_views(snapshots@)).take(i as int));
        }
    }
    proof {
        assert(keys@ =~= cpu_keys(snapshot_views(snapshots@)));
    }
    keys
}

/// One tick with the owners' names given: records every snapshot in the
/// store, ranks the snapshots by CPU value, largest first and equal values in
/// the order given, and returns the rows of the first `limit` of them.
/// `users[i]` is the name of the owner of `snapshots[i]`.
pub fn aggregate(
    store: &mut StatisticsStore,
    snapshots: &Vec<ProcessSnapshot>,
    users: &Vec<String>,
    limit: usize,
) -> (rows: Vec<RankedRow>)
    requires
        old(store).wf(),
        accepts(old(store)@, snapshot_views(snapshots@)),
        users@.len() == snapshots@.len(),
    ensures
        final(store).wf(),
        final(store)@ == recorded_all(old(store)@, snapshot_views(snapshots@)),
        row_views(rows@) == ranked_rows(
            old(store)@,
            snapshot_views(snapshots@),
            string_views(users@),
            limit as int,
        ),
        rows@.len() == shown(limit as int, snapshots@.len() as int),
        forall|a: int, b: int|
            0 <= a <= b < rows@.len() ==> (#[trigger] rows@[a]).cpu_hundredths
                >= (#[trigger] rows@[b]).cpu_hundredths,
{
    let ghost initial = store@;
    let ghost views = snapshot_views(snapshots@);
    let ghost names = string_views(users@);
    let ghost expected = ranked_rows(initial, views, names, limit as int);
    let averages = record_all(store, snapshots);
    let keys = cpu_values(snapshots);
    let order = rank_by_cpu(&keys, limit);
    proof {
        lemma_ranking_orders_every_index(keys@);
        lemma_ranked_rows_length(initial, views, names, limit as int);
        lemma_ranked_rows_sorted(initial, views, names, limit as int);
        assert(order@.len() == indices(order@).len());
        assert forall|j: int| 0 <= j < order@.len() implies #[trigger] order@[j]
            < snapshots@.len() by {
            assert(indices(order@)[j] == order@[j] as int);
            assert(indices(order@)[j] == ranking(keys@)[j]);
        }
    }
    let mut rows: Vec<RankedRow> = Vec::new();
    let mut k: usize = 0;
    while k < order.len()
        invariant
            k <= order.len(),
            views == snapshot_views(snapshots@),
            names == string_views(users@),
            users@.len() == snapshots@.len(),
            averages@.len() == snapshots@.len(),
            forall|i: int|
                0 <= i < snapshots@.len() ==> #[trigger] averages@[i] == average_at(
                    initial,
                    views,
                    i,
                ),
            order@.len() == expected.len(),
            expected == ranked_rows(initial, views, names, limit as int),
            indices(order@) == ranking(cpu_keys(views)).take(
                shown(limit as int, snapshots@.len() as int),
            ),
            forall|j: int| 0 <= j < order@.len() ==> #[trigger] order@[j] < snapshots@.len(),
            rows@.len() == k,
            row_views(rows@) == expected.take(k as int),
        decreases order.len() - k,
    {
        let index: usize = order[k];
        let snapshot = &snapshots[index];
        proof {
            assert(indices(order@)[k as int] == index as int);
            assert(views[index as int] == snapshot@);
            assert(names[index as int] == users@[index as int]@);
        }
        let row = RankedRow {
            name: snapshot.name.clone(),
            user_name: users[index].clone(),
            cpu_hundredths: snapshot.cpu_hundredths,
            memory_hundredths: to_megabyte_hundredths(snapshot.resident_memory_bytes),
            average_cpu_hundredths: averages[index],
        };
        proof {
            assert(row@ == row_for(initial, views, names, index as int));
            assert(expected[k as int] == row_for(initial, views, names, index as int));
        }
        let ghost shown_so_far = rows@;
        rows.push(row);
        k = k + 1;
        proof {
            assert forall|j: int| 0 <= j < k implies #[trigger] row_views(rows@)[j]
                == expected.take(k as int)[j] by {
                if j < k - 1 {
                    assert(rows@[j] == shown_so_far[j]);
                    assert(row_views(shown_so_far)[j] == shown_so_far[j]@);
                    assert(expected.take(k - 1)[j] == expected[j]);
                }
            }
            assert(row_views(rows@) =~= expected.take(k as int));
        }
    }
    proof {
        assert(expected.take(k as int) =~= expected);
        assert forall|a: int, b: int| 0 <= a <= b < rows@.len() implies (#[trigger] rows@[a]).cpu_hundredths
            >= (#[trigger] rows@[b]).cpu_hundredths by {
            assert(row_views(rows@)[a] == rows@[a]@);
            assert(row_views(rows@)[b] == rows@[b]@);
        }
    }
    rows
}

/// The names of the owners of `snapshots`, each resolved from the snapshot's
/// status record.
pub fn resolve_users(snapshots: &Vec<ProcessSnapshot>) -> (users: Vec<String>)
    ensures
        resolved(snapshot_views(snapshots@), string_views(users@)),
{
    let mut users: Vec<String> = Vec::new();
    let mut i: usize = 0;
    while i < snapshots.len()
        invariant
            i <= snapshots.len(),
            users@.len() == i,
            forall|j: int|
                0 <= j < i && (snapshots@[j]@.status is None || uid_of_status(
                    snapshots@[j]@.status->0,
                ) is None) ==> (#[trigger] users@[j])@ == unknown_user(),
        decreases snapshots.len() - i,
    {
        let name = process_user(&snapshots[i].status);
        users.push(name);
        i = i + 1;
    }
    proof {
        let views = snapshot_views(snapshots@);
        let names = string_views(users@);
        assert forall|j: int|
            0 <= j < views.len() && (views[j].status is None || uid_of_status(views[j].status->0)
                is None) implies #[trigger] names[j] == unknown_user() by {
            assert(views[j] == snapshots@[j]@);
            assert(names[j] == users@[j]@);
        }
    }
    users
}

/// One tick: resolves the owner of every snapshot, records every snapshot in
/// the store, ranks the snapshots by CPU value, largest first and equal
/// values in the order given, and returns the rows of the first `limit` of
/// them. Fewer snapshots than `limit` give fewer rows. An owner that cannot
/// be resolved is shown as `Unknown`.
pub fn tick(store: &mut StatisticsStore, snapshots: &Vec<ProcessSnapshot>, limit: usize) -> (rows:
    Vec<RankedRow>)
    requires
        old(store).wf(),
        accepts(old(store)@, snapshot_views(snapshots@)),
    ensures
        final(store).wf(),
        final(store)@ == recorded_all(old(store)@, snapshot_views(snapshots@)),
        exists|users: Seq<Seq<char>>|
            #[trigger] resolved(snapshot_views(snapshots@), users) && row_views(rows@)
                == ranked_rows(old(store)@, snapshot_views(snapshots@), users, limit as int),
        rows@.len() == shown(limit as int, snapshots@.len() as int),
        rows@.len() <= limit,
        forall|a: int, b: int|
            0 <= a <= b < rows@.len() ==> (#[trigger] rows@[a]).cpu_hundredths
                >= (#[trigger] rows@[b]).cpu_hundredths,
{
    let users = resolve_users(snapshots);
    let rows = aggregate(store, snapshots, &users, limit);
    proof {
        assert(resolved(snapshot_views(snapshots@), string_views(users@)));
    }
    rows
}

} // verus!
