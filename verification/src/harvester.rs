//! One tick of the process harvester: the state that lives from tick to
//! tick, and the step that turns a snapshot of the processes into the
//! reports of the tick.

use crate::cpu::{cpu_usage_calculation, idle_ticks, non_idle_ticks, CpuUsage};
use crate::error::HarvestError;
use crate::processes::{
    details_of, harvest_of, read_proc, read_proc_outcome, Pid, PrevProcDetails, Process,
    ProcessHarvest,
};
use crate::tables::{previous_details, GpuProcTable, PidSet, PidTable};
use crate::users::{name_view, names_after_resolve, needs_lookup, resolved_name, UserTable};
use vstd::prelude::*;

verus! {

/// What the harvester keeps between ticks, and what it is told of the
/// machine.
pub struct DataCollector {
    /// The idle ticks of the machine at the last tick.
    pub prev_idle: u64,
    /// The busy ticks of the machine at the last tick.
    pub prev_non_idle: u64,
    /// Whether a process is measured against the busy ticks of the
    /// machine alone, rather than against all ticks.
    pub use_current_cpu_total: bool,
    /// Whether a process that fills one core reads as a hundred percent.
    pub unnormalized_cpu: bool,
    /// The memory of the machine, in bytes.
    pub total_memory: u64,
    /// The number of cores of the machine.
    pub num_processors: u32,
    /// The state table: the counters of each process that the last tick
    /// saw.
    pub pid_mapping: PidTable,
    /// The names of the owners met so far.
    pub user_table: UserTable,
    /// What each GPU reports of its processes, where GPUs are watched.
    pub gpu_pids: Option<Vec<GpuProcTable>>,
}

/// The processes of a snapshot that could be read, in order.
pub open spec fn readable(entries: Seq<Option<Process>>) -> Seq<Process>
    decreases entries.len(),
{
    if entries.len() == 0 {
        Seq::empty()
    } else {
        match entries.last() {
            Some(process) => readable(entries.drop_last()).push(process),
            None => readable(entries.drop_last()),
        }
    }
}

/// The state table once the processes `seen` have been recorded in it, in
/// order: each under its identifier, with the counters it was read with.
pub open spec fn table_after(table: Map<Pid, PrevProcDetails>, seen: Seq<Process>) -> Map<
    Pid,
    PrevProcDetails,
>
    decreases seen.len(),
{
    if seen.len() == 0 {
        table
    } else {
        table_after(table, seen.drop_last()).insert(seen.last().pid, details_of(seen.last()))
    }
}

/// The identifiers of the processes `seen`.
pub open spec fn pids_of(seen: Seq<Process>) -> Set<Pid>
    decreases seen.len(),
{
    if seen.len() == 0 {
        Set::empty()
    } else {
        pids_of(seen.drop_last()).insert(seen.last().pid)
    }
}

/// The names known once the owners of the processes `seen` have been
/// resolved, in order, where `answers` holds for each process what a
/// lookup of its owner gave. An answer counts only where a lookup was
/// due.
pub open spec fn names_after(
    names: Map<u32, Seq<char>>,
    seen: Seq<Process>,
    answers: Seq<Option<String>>,
) -> Map<u32, Seq<char>>
    decreases seen.len(),
{
    if seen.len() == 0 {
        names
    } else {
        names_after_resolve(
            names_after(names, seen.drop_last(), answers.drop_last()),
            seen.last().uid,
            name_view(answers.last()),
        )
    }
}

/// The key under which the GPUs file the process `pid`: the identifier
/// as an unsigned number of 32 bits.
pub open spec fn gpu_key(pid: Pid) -> u32 {
    if pid >= 0 {
        pid as u32
    } else {
        (pid + 0x1_0000_0000) as u32
    }
}

/// What the tables `gpus` hold, one map for each.
pub open spec fn gpu_views(gpus: Seq<GpuProcTable>) -> Seq<Map<u32, (u64, u32)>> {
    Seq::new(gpus.len(), |i: int| gpus[i]@)
}

/// What the tables of the GPUs hold, one map for each GPU; none where
/// GPUs are not watched.
pub open spec fn gpu_tables(gpu_pids: Option<Vec<GpuProcTable>>) -> Seq<Map<u32, (u64, u32)>> {
    match gpu_pids {
        Some(gpus) => gpu_views(gpus@),
        None => Seq::empty(),
    }
}

/// The device memory that the process filed under `key` holds over all
/// GPUs. A sum that does not fit stays at the largest `u64`.
pub open spec fn gpu_mem_of(gpus: Seq<Map<u32, (u64, u32)>>, key: u32) -> u64
    decreases gpus.len(),
{
    if gpus.len() == 0 {
        0
    } else if gpus.last().contains_key(key) {
        gpu_mem_of(gpus.drop_last(), key).saturating_add(gpus.last()[key].0)
    } else {
        gpu_mem_of(gpus.drop_last(), key)
    }
}

/// The utilisation of the process filed under `key` over all GPUs. A sum
/// that does not fit stays at the largest `u32`.
pub open spec fn gpu_util_of(gpus: Seq<Map<u32, (u64, u32)>>, key: u32) -> u32
    decreases gpus.len(),
{
    if gpus.len() == 0 {
        0
    } else if gpus.last().contains_key(key) {
        gpu_util_of(gpus.drop_last(), key).saturating_add(gpus.last()[key].1)
    } else {
        gpu_util_of(gpus.drop_last(), key)
    }
}

/// The interval of the machine that a tick measures against, given the
/// state `before` the tick and the line of the machine's counters.
pub open spec fn tick_cpu(before: DataCollector, line: Seq<char>) -> CpuUsage {
    let usage = CpuUsage::between_spec(
        before.prev_idle,
        before.prev_non_idle,
        idle_ticks(line),
        non_idle_ticks(line),
    );
    if before.unnormalized_cpu {
        CpuUsage { divisor: before.num_processors, ..usage }
    } else {
        usage
    }
}

/// Whether `harvest` is what a tick reports of `process`, where the state
/// table held `table` and the names `names` were known when its turn
/// came, `gpus` is what the GPUs report, `answer` is what the lookup of
/// its owner gave, and `rate` is the number of clock ticks in a second.
pub open spec fn entry_harvest(
    harvest: ProcessHarvest,
    table: Map<Pid, PrevProcDetails>,
    names: Map<u32, Seq<char>>,
    gpus: Seq<Map<u32, (u64, u32)>>,
    cpu: CpuUsage,
    use_current_cpu_total: bool,
    total_memory: u64,
    time_difference_in_secs: u64,
    process: Process,
    answer: Option<String>,
    rate: u64,
) -> bool {
    &&& harvest_of(
        ProcessHarvest { gpu_mem: 0, gpu_util: 0, ..harvest },
        previous_details(table, process.pid),
        process,
        cpu,
        use_current_cpu_total,
        time_difference_in_secs,
        total_memory,
        resolved_name(names, process.uid, name_view(answer)),
        rate,
    )
    &&& harvest.gpu_mem == gpu_mem_of(gpus, gpu_key(process.pid))
    &&& harvest.gpu_util == gpu_util_of(gpus, gpu_key(process.pid))
}

/// Whether `harvest` is what a tick that began in the state `before`
/// reports of `process`, which comes after the processes `seen` in the
/// snapshot, where `answers` holds what the lookups gave for them,
/// `answer` what it gave for `process`, and `rate` is the number of clock
/// ticks in a second.
pub open spec fn tick_harvest(
    harvest: ProcessHarvest,
    before: DataCollector,
    cpu: CpuUsage,
    time_difference_in_secs: u64,
    seen: Seq<Process>,
    process: Process,
    answers: Seq<Option<String>>,
    answer: Option<String>,
    rate: u64,
) -> bool {
    entry_harvest(
        harvest,
        table_after(before.pid_mapping@, seen),
        names_after(before.user_table.names(), seen, answers),
        gpu_tables(before.gpu_pids),
        cpu,
        before.use_current_cpu_total,
        before.total_memory,
        time_difference_in_secs,
        process,
        answer,
        rate,
    )
}

/// Whether `answer` is what `lookup` may have given for the owner of
/// `process`, where the names `names` were known: where no lookup was
/// due, any answer will do, as it goes unused.
pub open spec fn answered<F: Fn(u32) -> Option<String>>(
    lookup: &F,
    names: Map<u32, Seq<char>>,
    process: Process,
    answer: Option<String>,
) -> bool {
    needs_lookup(names, process.uid) ==> call_ensures(lookup, (process.uid->0,), answer)
}

/// Whether the turn of `process` in a tick may take the state from
/// `before` to `after` and yield the report `harvest`, where `answer` is
/// what the lookup of its owner gave and `rate` is the number of clock
/// ticks in a second.
pub open spec fn entry_outcome<F: Fn(u32) -> Option<String>>(
    before: DataCollector,
    after: DataCollector,
    harvest: ProcessHarvest,
    process: Process,
    cpu: CpuUsage,
    time_difference_in_secs: u64,
    lookup: &F,
    answer: Option<String>,
    rate: u64,
) -> bool {
    &&& answered(lookup, before.user_table.names(), process, answer)
    &&& entry_harvest(
        harvest,
        before.pid_mapping@,
        before.user_table.names(),
        gpu_tables(before.gpu_pids),
        cpu,
        before.use_current_cpu_total,
        before.total_memory,
        time_difference_in_secs,
        process,
        answer,
        rate,
    )
    &&& after.pid_mapping@ == before.pid_mapping@.insert(process.pid, details_of(process))
    &&& after.user_table.names() == names_after_resolve(
        before.user_table.names(),
        process.uid,
        name_view(answer),
    )
    &&& after.prev_idle == before.prev_idle
    &&& after.prev_non_idle == before.prev_non_idle
    &&& after.use_current_cpu_total == before.use_current_cpu_total
    &&& after.unnormalized_cpu == before.unnormalized_cpu
    &&& after.total_memory == before.total_memory
    &&& after.num_processors == before.num_processors
    &&& after.gpu_pids == before.gpu_pids
}

/// Whether a tick that began in the state `before` and was given the line
/// `line` of the machine's counters and the processes `seen` may end in
/// the state `after` with the reports `harvests`, where `answers` holds
/// what the lookups of the owners gave and `rates` the clock ticks in a
/// second as they were read for each process.
pub open spec fn tick_outcome<F: Fn(u32) -> Option<String>>(
    before: DataCollector,
    after: DataCollector,
    line: Seq<char>,
    seen: Seq<Process>,
    lookup: &F,
    time_difference_in_secs: u64,
    harvests: Seq<ProcessHarvest>,
    answers: Seq<Option<String>>,
    rates: Seq<u64>,
) -> bool {
    &&& harvests.len() == seen.len()
    &&& answers.len() == seen.len()
    &&& rates.len() == seen.len()
    &&& forall|i: int|
        0 <= i < seen.len() ==> answered(
            lookup,
            names_after(before.user_table.names(), seen.take(i), answers.take(i)),
            seen[i],
            #[trigger] answers[i],
        )
    &&& forall|i: int|
        0 <= i < seen.len() ==> tick_harvest(
            #[trigger] harvests[i],
            before,
            tick_cpu(before, line),
            time_difference_in_secs,
            seen.take(i),
            seen[i],
            answers.take(i),
            answers[i],
            rates[i],
        )
    &&& after.prev_idle == idle_ticks(line)
    &&& after.prev_non_idle == non_idle_ticks(line)
    &&& after.pid_mapping@ == table_after(Map::empty(), seen)
    &&& after.user_table.names() == names_after(before.user_table.names(), seen, answers)
    &&& after.use_current_cpu_total == before.use_current_cpu_total
    &&& after.unnormalized_cpu == before.unnormalized_cpu
    &&& after.total_memory == before.total_memory
    &&& after.num_processors == before.num_processors
    &&& after.gpu_pids == before.gpu_pids
}

/// Every identifier of `seen` has an entry in `table_after`, which does
/// not depend on what the table held before; every other identifier is as
/// it was.
pub proof fn lemma_table_after(table: Map<Pid, PrevProcDetails>, seen: Seq<Process>)
    ensures
        forall|pid: Pid| #[trigger]
            table_after(table, seen).contains_key(pid) <==> pids_of(seen).contains(pid)
                || table.contains_key(pid),
        forall|pid: Pid|
            pids_of(seen).contains(pid) ==> #[trigger] table_after(table, seen)[pid]
                == table_after(Map::empty(), seen)[pid],
        forall|pid: Pid|
            !pids_of(seen).contains(pid) && table.contains_key(pid) ==> #[trigger] table_after(
                table,
                seen,
            )[pid] == table[pid],
    decreases seen.len(),
{
    if seen.len() > 0 {
        let rest = seen.drop_last();
        let empty = Map::<Pid, PrevProcDetails>::empty();
        lemma_table_after(table, rest);
        lemma_table_after(empty, rest);
        assert forall|pid: Pid| #[trigger]
            table_after(table, seen).contains_key(pid) <==> pids_of(seen).contains(pid)
                || table.contains_key(pid) by {
            assert(table_after(table, rest).contains_key(pid) <==> pids_of(rest).contains(pid)
                || table.contains_key(pid));
        }
        assert forall|pid: Pid| pids_of(seen).contains(pid) implies #[trigger] table_after(
            table,
            seen,
        )[pid] == table_after(empty, seen)[pid] by {
            if pid != seen.last().pid {
                assert(pids_of(rest).contains(pid));
                assert(table_after(table, rest)[pid] == table_after(empty, rest)[pid]);
            }
        }
        assert forall|pid: Pid|
            !pids_of(seen).contains(pid) && table.contains_key(pid) implies #[trigger] table_after(
            table,
            seen,
        )[pid] == table[pid] by {
            assert(!pids_of(rest).contains(pid));
            assert(table_after(table, rest)[pid] == table[pid]);
        }
    }
}

/// Once the identifiers that were not seen are dropped, the state table
/// holds the processes of the snapshot and nothing else, whatever it held
/// before.
pub proof fn lemma_table_after_eviction(table: Map<Pid, PrevProcDetails>, seen: Seq<Process>)
    ensures
        table_after(table, seen).restrict(pids_of(seen)) =~= table_after(Map::empty(), seen),
        table_after(Map::empty(), seen).dom() =~= pids_of(seen),
{
    lemma_table_after(table, seen);
    lemma_table_after(Map::empty(), seen);
}

/// An identifier is among `pids_of` exactly if a process of the sequence
/// has it.
pub proof fn lemma_pids_of(seen: Seq<Process>, pid: Pid)
    ensures
        pids_of(seen).contains(pid) <==> exists|i: int|
            0 <= i < seen.len() && (#[trigger] seen[i]).pid == pid,
    decreases seen.len(),
{
    if seen.len() > 0 {
        let rest = seen.drop_last();
        lemma_pids_of(rest, pid);
        if pids_of(seen).contains(pid) {
            if seen.last().pid == pid {
                assert(seen[seen.len() - 1].pid == pid);
            } else {
                let i = choose|i: int| 0 <= i < rest.len() && (#[trigger] rest[i]).pid == pid;
                assert(seen[i].pid == pid);
            }
        }
        if exists|i: int| 0 <= i < seen.len() && (#[trigger] seen[i]).pid == pid {
            let i = choose|i: int| 0 <= i < seen.len() && (#[trigger] seen[i]).pid == pid;
            if i < seen.len() - 1 {
                assert(rest[i].pid == pid);
            }
        }
    }
}

/// A process that one tick saw and the next tick did not see has an
/// entry in the state table after the first of them, and none after the
/// second.
pub proof fn lemma_eviction(first: Seq<Process>, second: Seq<Process>, pid: Pid)
    requires
        exists|i: int| 0 <= i < first.len() && (#[trigger] first[i]).pid == pid,
        forall|i: int| 0 <= i < second.len() ==> (#[trigger] second[i]).pid != pid,
    ensures
        table_after(Map::empty(), first).contains_key(pid),
        !table_after(Map::empty(), second).contains_key(pid),
{
    lemma_pids_of(first, pid);
    lemma_pids_of(second, pid);
    lemma_table_after_eviction(Map::empty(), first);
    lemma_table_after_eviction(Map::empty(), second);
}

/// A process that one tick saw and the next tick did not see has an
/// entry in the state table when the first of the two ticks is over, and
/// none when the second is.
pub proof fn lemma_evicted_by_next_tick<F: Fn(u32) -> Option<String>>(
    start: DataCollector,
    between: DataCollector,
    end: DataCollector,
    first_line: Seq<char>,
    second_line: Seq<char>,
    first: Seq<Process>,
    second: Seq<Process>,
    lookup: &F,
    first_secs: u64,
    second_secs: u64,
    first_harvests: Seq<ProcessHarvest>,
    second_harvests: Seq<ProcessHarvest>,
    first_answers: Seq<Option<String>>,
    second_answers: Seq<Option<String>>,
    first_rates: Seq<u64>,
    second_rates: Seq<u64>,
    pid: Pid,
)
    requires
        tick_outcome(
            start,
            between,
            first_line,
            first,
            lookup,
            first_secs,
            first_harvests,
            first_answers,
            first_rates,
        ),
        tick_outcome(
            between,
            end,
            second_line,
            second,
            lookup,
            second_secs,
            second_harvests,
            second_answers,
            second_rates,
        ),
        exists|i: int| 0 <= i < first.len() && (#[trigger] first[i]).pid == pid,
        forall|i: int| 0 <= i < second.len() ==> (#[trigger] second[i]).pid != pid,
    ensures
        between.pid_mapping@.contains_key(pid),
        !end.pid_mapping@.contains_key(pid),
{
    lemma_eviction(first, second, pid);
}

/// After a tick the state table holds an entry for a process exactly if
/// the snapshot of the tick held the process.
pub proof fn lemma_table_holds_the_snapshot<F: Fn(u32) -> Option<String>>(
    before: DataCollector,
    after: DataCollector,
    line: Seq<char>,
    seen: Seq<Process>,
    lookup: &F,
    time_difference_in_secs: u64,
    harvests: Seq<ProcessHarvest>,
    answers: Seq<Option<String>>,
    rates: Seq<u64>,
    pid: Pid,
)
    requires
        tick_outcome(
            before,
            after,
            line,
            seen,
            lookup,
            time_difference_in_secs,
            harvests,
            answers,
            rates,
        ),
    ensures
        after.pid_mapping@.contains_key(pid) <==> exists|i: int|
            0 <= i < seen.len() && (#[trigger] seen[i]).pid == pid,
{
    lemma_pids_of(seen, pid);
    lemma_table_after_eviction(Map::empty(), seen);
}

/// A process that the state table did not hold before a tick, and that
/// the snapshot of the tick holds once, is measured against counters of
/// zero: its usage of the CPU is that of all the ticks it has used, and
/// its rates are those of all the bytes it has read and written.
pub proof fn lemma_first_sight_in_tick<F: Fn(u32) -> Option<String>>(
    before: DataCollector,
    after: DataCollector,
    line: Seq<char>,
    seen: Seq<Process>,
    lookup: &F,
    time_difference_in_secs: u64,
    harvests: Seq<ProcessHarvest>,
    answers: Seq<Option<String>>,
    rates: Seq<u64>,
    i: int,
)
    requires
        tick_outcome(
            before,
            after,
            line,
            seen,
            lookup,
            time_difference_in_secs,
            harvests,
            answers,
            rates,
        ),
        0 <= i < seen.len(),
        !before.pid_mapping@.contains_key(seen[i].pid),
        forall|j: int| 0 <= j < i ==> (#[trigger] seen[j]).pid != seen[i].pid,
    ensures
        harvests[i].cpu_usage_percent == crate::processes::cpu_percent(
            crate::processes::proc_ticks(seen[i].stat),
            tick_cpu(before, line),
            before.use_current_cpu_total,
        ),
        harvests[i].read_bytes_per_sec == crate::processes::io_rate(
            crate::processes::total_read_bytes(seen[i]),
            0,
            time_difference_in_secs,
        ),
        harvests[i].write_bytes_per_sec == crate::processes::io_rate(
            crate::processes::total_write_bytes(seen[i]),
            0,
            time_difference_in_secs,
        ),
{
    let earlier = seen.take(i);
    let pid = seen[i].pid;
    lemma_pids_of(earlier, pid);
    lemma_table_after(before.pid_mapping@, earlier);
    assert(!pids_of(earlier).contains(pid)) by {
        if pids_of(earlier).contains(pid) {
            let j = choose|j: int| 0 <= j < earlier.len() && (#[trigger] earlier[j]).pid == pid;
            assert(seen[j].pid == pid);
        }
    }
    assert(!table_after(before.pid_mapping@, earlier).contains_key(pid));
    assert(tick_harvest(
        harvests[i],
        before,
        tick_cpu(before, line),
        time_difference_in_secs,
        seen.take(i),
        seen[i],
        answers.take(i),
        answers[i],
        rates[i],
    ));
}

/// No rate of a tick is negative, and a tick for which no time has
/// elapsed reports no rate.
pub proof fn lemma_rates_of_a_tick<F: Fn(u32) -> Option<String>>(
    before: DataCollector,
    after: DataCollector,
    line: Seq<char>,
    seen: Seq<Process>,
    lookup: &F,
    time_difference_in_secs: u64,
    harvests: Seq<ProcessHarvest>,
    answers: Seq<Option<String>>,
    rates: Seq<u64>,
    i: int,
)
    requires
        tick_outcome(
            before,
            after,
            line,
            seen,
            lookup,
            time_difference_in_secs,
            harvests,
            answers,
            rates,
        ),
        0 <= i < seen.len(),
    ensures
        harvests[i].read_bytes_per_sec >= 0,
        harvests[i].write_bytes_per_sec >= 0,
        time_difference_in_secs == 0 ==> harvests[i].read_bytes_per_sec == 0
            && harvests[i].write_bytes_per_sec == 0,
        seen[i].io is None ==> harvests[i].read_bytes_per_sec == 0 && harvests[i].write_bytes_per_sec
            == 0 && harvests[i].total_read_bytes == 0 && harvests[i].total_write_bytes == 0,
{
    assert(tick_harvest(
        harvests[i],
        before,
        tick_cpu(before, line),
        time_difference_in_secs,
        seen.take(i),
        seen[i],
        answers.take(i),
        answers[i],
        rates[i],
    ));
}

/// Resolving owners adds names and changes none: whatever was known
/// before is known after, under the same name.
pub proof fn lemma_names_only_grow(
    names: Map<u32, Seq<char>>,
    seen: Seq<Process>,
    answers: Seq<Option<String>>,
)
    ensures
        names.submap_of(names_after(names, seen, answers)),
    decreases seen.len(),
{
    if seen.len() > 0 {
        lemma_names_only_grow(names, seen.drop_last(), answers.drop_last());
        let earlier = names_after(names, seen.drop_last(), answers.drop_last());
        let now = names_after(names, seen, answers);
        assert forall|uid: u32| names.contains_key(uid) implies #[trigger] now.contains_key(uid)
            && now[uid] == names[uid] by {
            assert(earlier.contains_key(uid) && earlier[uid] == names[uid]);
        }
    }
}

/// The key under which the GPUs file the process `pid`.
pub fn gpu_key_of(pid: Pid) -> (key: u32)
    ensures
        key == gpu_key(pid),
{
    if pid >= 0 {
        pid as u32
    } else {
        (pid as i64 + 0x1_0000_0000) as u32
    }
}

/// The device memory and the utilisation of the process `pid`, summed
/// over the tables `gpus`.
pub fn gpu_usage_of(gpus: &Vec<GpuProcTable>, pid: Pid) -> (usage: (u64, u32))
    ensures
        usage.0 == gpu_mem_of(gpu_views(gpus@), gpu_key(pid)),
        usage.1 == gpu_util_of(gpu_views(gpus@), gpu_key(pid)),
{
    let key = gpu_key_of(pid);
    let ghost all = gpu_views(gpus@);
    let mut gpu_mem: u64 = 0;
    let mut gpu_util: u32 = 0;
    let mut i: usize = 0;
    while i < gpus.len()
        invariant
            i <= gpus.len(),
            all == gpu_views(gpus@),
            key == gpu_key(pid),
            gpu_mem == gpu_mem_of(all.take(i as int), key),
            gpu_util == gpu_util_of(all.take(i as int), key),
        decreases gpus.len() - i,
    {
        proof {
            assert(all.take(i + 1).drop_last() =~= all.take(i as int));
            assert(all.take(i + 1).last() == gpus@[i as int]@);
        }
        match gpus[i].get(key) {
            Some((mem, util)) => {
                gpu_mem = gpu_mem.saturating_add(mem);
                gpu_util = gpu_util.saturating_add(util);
            },
            None => {},
        }
        i += 1;
    }
    assert(all.take(i as int) =~= all);
    (gpu_mem, gpu_util)
}

/// The turn of one process in a tick: reports on `process`, and records
/// its counters in the state table.
pub fn harvest_entry<F: Fn(u32) -> Option<String>>(
    collector: &mut DataCollector,
    process: &Process,
    cpu: &CpuUsage,
    time_difference_in_secs: u64,
    lookup: &F,
) -> (harvest: ProcessHarvest)
    requires
        process.uid is Some ==> call_requires(lookup, (process.uid->0,)),
    ensures
        exists|answer: Option<String>, rate: u64| #[trigger]
            entry_outcome(
                *old(collector),
                *final(collector),
                harvest,
                *process,
                *cpu,
                time_difference_in_secs,
                lookup,
                answer,
                rate,
            ),
{
    let pid = process.pid;
    let prev_proc_details = collector.pid_mapping.get_or_default(pid);
    let ghost names_before = collector.user_table.names();
    let (mut process_harvest, new_process_times) = read_proc(
        &prev_proc_details,
        process,
        cpu,
        collector.use_current_cpu_total,
        time_difference_in_secs,
        collector.total_memory,
        &mut collector.user_table,
        lookup,
    );
    let ghost bare = process_harvest;
    let ghost (answer, rate) = choose|answer: Option<String>, rate: u64|
        {
            &&& needs_lookup(names_before, process.uid) ==> call_ensures(
                lookup,
                (process.uid->0,),
                answer,
            )
            &&& #[trigger] read_proc_outcome(
                (bare, new_process_times),
                prev_proc_details,
                *process,
                *cpu,
                old(collector).use_current_cpu_total,
                time_difference_in_secs,
                old(collector).total_memory,
                names_before,
                collector.user_table.names(),
                answer,
                rate,
            )
        };
    match &collector.gpu_pids {
        Some(gpus) => {
            let (gpu_mem, gpu_util) = gpu_usage_of(gpus, pid);
            process_harvest.gpu_mem = gpu_mem;
            process_harvest.gpu_util = gpu_util;
        },
        None => {},
    }
    collector.pid_mapping.insert(
        pid,
        PrevProcDetails {
            total_read_bytes: process_harvest.total_read_bytes,
            total_write_bytes: process_harvest.total_write_bytes,
            cpu_time: new_process_times,
        },
    );
    proof {
        assert((ProcessHarvest { gpu_mem: 0, gpu_util: 0, ..process_harvest }) == bare);
        assert(entry_outcome(
            *old(collector),
            *collector,
            process_harvest,
            *process,
            *cpu,
            time_difference_in_secs,
            lookup,
            answer,
            rate,
        ));
    }
    process_harvest
}

/// Runs one tick. `stat_line` is the line of the machine's CPU counters,
/// or nothing if it could not be read; `entries` is the snapshot of the
/// processes, with nothing in the place of a process that could not be
/// read; `lookup` finds the name of an owner.
///
/// Without the machine's counters the tick fails, and the state is as it
/// was. Otherwise each process that could be read is reported, in the
/// order of the snapshot, measured against what the state table
/// remembered of it, or against zeros if it is new. Afterwards the state
/// table holds the processes of this snapshot and no others.
pub fn linux_process_data<F: Fn(u32) -> Option<String>>(
    collector: &mut DataCollector,
    stat_line: Option<&str>,
    entries: &Vec<Option<Process>>,
    lookup: &F,
    time_difference_in_secs: u64,
) -> (result: Result<Vec<ProcessHarvest>, HarvestError>)
    requires
        forall|u: u32| call_requires(lookup, (u,)),
    ensures
        match stat_line {
            Some(line) => result is Ok && exists|answers: Seq<Option<String>>, rates: Seq<u64>| #[trigger]
                tick_outcome(
                    *old(collector),
                    *final(collector),
                    line@,
                    readable(entries@),
                    lookup,
                    time_difference_in_secs,
                    result->Ok_0@,
                    answers,
                    rates,
                ),
            None => *final(collector) == *old(collector) && (result matches Err(
                HarvestError::GenericError(message),
            ) && message@ == "Could not calculate CPU usage."@),
        },
{
    let line = match stat_line {
        Some(line) => line,
        None => {
            return Err(
                HarvestError::GenericError(String::from_str("Could not calculate CPU usage.")),
            );
        },
    };
    let ghost before = *collector;
    let mut cpu = cpu_usage_calculation(
        &mut collector.prev_idle,
        &mut collector.prev_non_idle,
        line,
    );
    if collector.unnormalized_cpu {
        cpu = cpu.per_core(collector.num_processors);
    }
    let mut live = PidSet::new();
    let mut process_vector: Vec<ProcessHarvest> = Vec::new();
    let ghost mut seen: Seq<Process> = Seq::empty();
    let ghost mut answers: Seq<Option<String>> = Seq::empty();
    let ghost mut rates: Seq<u64> = Seq::empty();
    let mut k: usize = 0;
    assert(entries@.take(0) =~= Seq::empty());
    while k < entries.len()
        invariant
            k <= entries.len(),
            forall|u: u32| call_requires(lookup, (u,)),
            cpu == tick_cpu(before, line@),
            seen == readable(entries@.take(k as int)),
            process_vector.len() == seen.len(),
            answers.len() == seen.len(),
            rates.len() == seen.len(),
            collector.pid_mapping@ == table_after(before.pid_mapping@, seen),
            live@ == pids_of(seen),
            collector.user_table.names() == names_after(before.user_table.names(), seen, answers),
            forall|i: int|
                0 <= i < seen.len() ==> answered(
                    lookup,
                    names_after(before.user_table.names(), seen.take(i), answers.take(i)),
                    seen[i],
                    #[trigger] answers[i],
                ),
            forall|i: int|
                0 <= i < seen.len() ==> tick_harvest(
                    #[trigger] process_vector@[i],
                    before,
                    cpu,
                    time_difference_in_secs,
                    seen.take(i),
                    seen[i],
                    answers.take(i),
                    answers[i],
                    rates[i],
                ),
            collector.prev_idle == idle_ticks(line@),
            collector.prev_non_idle == non_idle_ticks(line@),
            collector.use_current_cpu_total == before.use_current_cpu_total,
            collector.unnormalized_cpu == before.unnormalized_cpu,
            collector.total_memory == before.total_memory,
            collector.num_processors == before.num_processors,
            collector.gpu_pids == before.gpu_pids,
        decreases entries.len() - k,
    {
        proof {
            assert(entries@.take(k + 1).drop_last() =~= entries@.take(k as int));
            assert(entries@.take(k + 1).last() == entries@[k as int]);
        }
        match &entries[k] {
            Some(process) => {
                let ghost entered = *collector;
                let process_harvest = harvest_entry(
                    collector,
                    process,
                    &cpu,
                    time_difference_in_secs,
                    lookup,
                );
                live.insert(process.pid);
                proof {
                    let (answer, rate) = choose|answer: Option<String>, rate: u64| #[trigger]
                        entry_outcome(
                            entered,
                            *collector,
                            process_harvest,
                            *process,
                            cpu,
                            time_difference_in_secs,
                            lookup,
                            answer,
                            rate,
                        );
                    let seen_now = seen.push(*process);
                    let answers_now = answers.push(answer);
                    let rates_now = rates.push(rate);
                    let harvests_now = process_vector@.push(process_harvest);
                    assert(seen_now.drop_last() =~= seen);
                    assert(answers_now.drop_last() =~= answers);
                    assert forall|i: int| 0 <= i < seen_now.len() implies answered(
                        lookup,
                        names_after(
                            before.user_table.names(),
                            seen_now.take(i),
                            answers_now.take(i),
                        ),
                        seen_now[i],
                        #[trigger] answers_now[i],
                    ) by {
                        if i < seen.len() {
                            assert(seen_now.take(i) =~= seen.take(i));
                            assert(answers_now.take(i) =~= answers.take(i));
                            assert(answers_now[i] == answers[i]);
                        } else {
                            assert(seen_now.take(i) =~= seen);
                            assert(answers_now.take(i) =~= answers);
                        }
                    }
                    assert forall|i: int| 0 <= i < seen_now.len() implies tick_harvest(
                        #[trigger] harvests_now[i],
                        before,
                        cpu,
                        time_difference_in_secs,
                        seen_now.take(i),
                        seen_now[i],
                        answers_now.take(i),
                        answers_now[i],
                        rates_now[i],
                    ) by {
                        if i < seen.len() {
                            assert(seen_now.take(i) =~= seen.take(i));
                            assert(answers_now.take(i) =~= answers.take(i));
                            assert(harvests_now[i] == process_vector@[i]);
                        } else {
                            assert(seen_now.take(i) =~= seen);
                            assert(answers_now.take(i) =~= answers);
                        }
                    }
                    seen = seen_now;
                    answers = answers_now;
                    rates = rates_now;
                }
                process_vector.push(process_harvest);
            },
            None => {},
        }
        k += 1;
    }
    proof {
        assert(entries@.take(k as int) =~= entries@);
        lemma_table_after_eviction(before.pid_mapping@, seen);
    }
    collector.pid_mapping.retain_live(&live);
    proof {
        assert(tick_outcome(
            before,
            *collector,
            line@,
            readable(entries@),
            lookup,
            time_difference_in_secs,
            process_vector@,
            answers,
            rates,
        ));
    }
    let ghost harvests = process_vector@;
    let result = Ok(process_vector);
    assert(result->Ok_0@ == harvests);
    result
}

} // verus!
