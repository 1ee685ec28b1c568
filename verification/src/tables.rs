//! The hash tables that the harvesters keep, each behind the few
//! operations that the harvesters need.
//!
//! The tables themselves are `hashbrown`'s. Nothing here is proved of
//! them: every function of this file that touches one states what
//! `hashbrown` documents of the method it calls, and the rest of the crate
//! is verified against those statements.

use crate::processes::{Pid, PrevProcDetails};
use vstd::prelude::*;

verus! {

/// The state table of the process harvester: for each process seen at the
/// last tick, the counters it had then.
#[verifier::external_body]
pub struct PidTable {
    inner: hashbrown::HashMap<Pid, PrevProcDetails>,
}

/// What a `PidTable` holds.
pub uninterp spec fn pid_table_entries(table: PidTable) -> Map<Pid, PrevProcDetails>;

/// A set of process identifiers.
#[verifier::external_body]
pub struct PidSet {
    inner: hashbrown::HashSet<Pid>,
}

/// What a `PidSet` holds.
pub uninterp spec fn pid_set_members(set: PidSet) -> Set<Pid>;

/// What one GPU reports of the processes that run on it: for each process
/// identifier the device memory in use, in bytes, and the utilisation, in
/// percent.
#[verifier::external_body]
pub struct GpuProcTable {
    inner: hashbrown::HashMap<u32, (u64, u32)>,
}

/// What a `GpuProcTable` holds.
pub uninterp spec fn gpu_proc_entries(table: GpuProcTable) -> Map<u32, (u64, u32)>;

/// `hashbrown::HashMap::new`: the new map is empty.
#[verifier::external_body]
fn pid_table_new() -> (table: PidTable)
    ensures
        pid_table_entries(table) == (Map::<Pid, PrevProcDetails>::empty()),
{
    PidTable { inner: hashbrown::HashMap::new() }
}

/// `hashbrown::HashMap::get`: the value stored under `pid`, if there is
/// one. The value is copied out.
#[verifier::external_body]
fn pid_table_get(table: &PidTable, pid: Pid) -> (found: Option<PrevProcDetails>)
    ensures
        found == if pid_table_entries(*table).contains_key(pid) {
            Some(pid_table_entries(*table)[pid])
        } else {
            None
        },
{
    table.inner.get(&pid).copied()
}

/// `hashbrown::HashMap::insert`: afterwards `pid` maps to `details`, and
/// every other key is as before.
#[verifier::external_body]
fn pid_table_insert(table: &mut PidTable, pid: Pid, details: PrevProcDetails)
    ensures
        pid_table_entries(*final(table)) == pid_table_entries(*old(table)).insert(pid, details),
{
    table.inner.insert(pid, details);
}

/// `hashbrown::HashMap::remove`: afterwards `pid` is no key, and every
/// other key is as before.
#[verifier::external_body]
fn pid_table_remove(table: &mut PidTable, pid: Pid)
    ensures
        pid_table_entries(*final(table)) == pid_table_entries(*old(table)).remove(pid),
{
    table.inner.remove(&pid);
}

/// `hashbrown::HashMap::keys`: every key once, in an order that is not
/// specified.
#[verifier::external_body]
fn pid_table_keys(table: &PidTable) -> (keys: Vec<Pid>)
    ensures
        keys@.no_duplicates(),
        forall|pid: Pid| keys@.contains(pid) <==> pid_table_entries(*table).contains_key(pid),
{
    table.inner.keys().copied().collect()
}

/// `hashbrown::HashSet::new`: the new set is empty.
#[verifier::external_body]
fn pid_set_new() -> (set: PidSet)
    ensures
        pid_set_members(set) == Set::<Pid>::empty(),
{
    PidSet { inner: hashbrown::HashSet::new() }
}

/// `hashbrown::HashSet::insert`: afterwards `pid` is a member, and every
/// other value is as before.
#[verifier::external_body]
fn pid_set_insert(set: &mut PidSet, pid: Pid)
    ensures
        pid_set_members(*final(set)) == pid_set_members(*old(set)).insert(pid),
{
    set.inner.insert(pid);
}

/// `hashbrown::HashSet::contains`: whether `pid` is a member.
#[verifier::external_body]
fn pid_set_contains(set: &PidSet, pid: Pid) -> (found: bool)
    ensures
        found == pid_set_members(*set).contains(pid),
{
    set.inner.contains(&pid)
}

/// `hashbrown::HashMap::new`: the new map is empty.
#[verifier::external_body]
fn gpu_procs_new() -> (table: GpuProcTable)
    ensures
        gpu_proc_entries(table) == (Map::<u32, (u64, u32)>::empty()),
{
    GpuProcTable { inner: hashbrown::HashMap::new() }
}

/// `hashbrown::HashMap::get`: the value stored under `pid`, if there is
/// one. The value is copied out.
#[verifier::external_body]
fn gpu_procs_get(table: &GpuProcTable, pid: u32) -> (found: Option<(u64, u32)>)
    ensures
        found == if gpu_proc_entries(*table).contains_key(pid) {
            Some(gpu_proc_entries(*table)[pid])
        } else {
            None
        },
{
    table.inner.get(&pid).copied()
}

/// `hashbrown::HashMap::insert`: afterwards `pid` maps to `usage`, and
/// every other key is as before.
#[verifier::external_body]
fn gpu_procs_insert(table: &mut GpuProcTable, pid: u32, usage: (u64, u32))
    ensures
        gpu_proc_entries(*final(table)) == gpu_proc_entries(*old(table)).insert(pid, usage),
{
    table.inner.insert(pid, usage);
}

/// `hashbrown::HashMap::is_empty`: whether the map has no key.
#[verifier::external_body]
fn gpu_procs_is_empty(table: &GpuProcTable) -> (empty: bool)
    ensures
        empty <==> forall|pid: u32| !gpu_proc_entries(*table).contains_key(pid),
{
    table.inner.is_empty()
}

impl View for PidTable {
    type V = Map<Pid, PrevProcDetails>;

    open spec fn view(&self) -> Map<Pid, PrevProcDetails> {
        pid_table_entries(*self)
    }
}

impl PidTable {
    /// A table without entries.
    pub fn new() -> (table: PidTable)
        ensures
            table@ == Map::<Pid, PrevProcDetails>::empty(),
    {
        pid_table_new()
    }

    /// The counters stored for `pid`, if any are.
    pub fn get(&self, pid: Pid) -> (found: Option<PrevProcDetails>)
        ensures
            found == if self@.contains_key(pid) {
                Some(self@[pid])
            } else {
                None
            },
    {
        pid_table_get(self, pid)
    }

    /// The counters stored for `pid`, and zeros where none are.
    pub fn get_or_default(&self, pid: Pid) -> (details: PrevProcDetails)
        ensures
            details == previous_details(self@, pid),
    {
        match pid_table_get(self, pid) {
            Some(details) => details,
            None => PrevProcDetails::default(),
        }
    }

    /// Stores `details` for `pid`, in place of what was stored for it.
    pub fn insert(&mut self, pid: Pid, details: PrevProcDetails)
        ensures
            final(self)@ == old(self)@.insert(pid, details),
    {
        pid_table_insert(self, pid, details)
    }

    /// Forgets `pid`.
    pub fn remove(&mut self, pid: Pid)
        ensures
            final(self)@ == old(self)@.remove(pid),
    {
        pid_table_remove(self, pid)
    }

    /// The identifiers that have an entry, each once, in no particular
    /// order.
    pub fn keys(&self) -> (keys: Vec<Pid>)
        ensures
            keys@.no_duplicates(),
            forall|pid: Pid| keys@.contains(pid) <==> self@.contains_key(pid),
    {
        pid_table_keys(self)
    }

    /// Forgets every identifier that is not in `live`.
    pub fn retain_live(&mut self, live: &PidSet)
        ensures
            final(self)@ == old(self)@.restrict(live@),
    {
        let keys = pid_table_keys(self);
        let mut i: usize = 0;
        while i < keys.len()
            invariant
                i <= keys.len(),
                forall|pid: Pid| keys@.contains(pid) <==> old(self)@.contains_key(pid),
                self@ =~= old(self)@.remove_keys(evicted(keys@.take(i as int), live@)),
            decreases keys.len() - i,
        {
            let pid = keys[i];
            let ghost before = evicted(keys@.take(i as int), live@);
            proof {
                assert(keys@.take(i + 1).drop_last() =~= keys@.take(i as int));
                assert(keys@.take(i + 1).last() == pid);
            }
            if !pid_set_contains(live, pid) {
                pid_table_remove(self, pid);
                assert(self@ =~= old(self)@.remove_keys(before.insert(pid)));
            }
            i += 1;
        }
        proof {
            assert(keys@.take(i as int) =~= keys@);
            lemma_evicted(keys@, live@);
            assert(self@ =~= old(self)@.restrict(live@));
        }
    }
}

/// The members of `keys` that are not in `live`.
pub open spec fn evicted(keys: Seq<Pid>, live: Set<Pid>) -> Set<Pid>
    decreases keys.len(),
{
    if keys.len() == 0 {
        Set::empty()
    } else if live.contains(keys.last()) {
        evicted(keys.drop_last(), live)
    } else {
        evicted(keys.drop_last(), live).insert(keys.last())
    }
}

/// `evicted` holds the members of `keys` that `live` lacks, and nothing
/// else.
pub proof fn lemma_evicted(keys: Seq<Pid>, live: Set<Pid>)
    ensures
        forall|pid: Pid| #[trigger]
            evicted(keys, live).contains(pid) <==> keys.contains(pid) && !live.contains(pid),
    decreases keys.len(),
{
    if keys.len() > 0 {
        lemma_evicted(keys.drop_last(), live);
        assert forall|pid: Pid| #[trigger]
            evicted(keys, live).contains(pid) <==> keys.contains(pid) && !live.contains(
                pid,
            ) by {
            let rest = keys.drop_last();
            assert(evicted(rest, live).contains(pid) <==> rest.contains(pid) && !live.contains(pid));
            assert(keys[keys.len() - 1] == keys.last());
            if rest.contains(pid) {
                let j = choose|j: int| 0 <= j < rest.len() && rest[j] == pid;
                assert(keys[j] == pid);
            }
            if keys.contains(pid) {
                let j = choose|j: int| 0 <= j < keys.len() && keys[j] == pid;
                if j < keys.len() - 1 {
                    assert(keys.drop_last()[j] == pid);
                } else {
                    assert(pid == keys.last());
                }
            }
        }
    }
}

/// What `table` remembers of `pid`: its entry, or zeros where it has none.
pub open spec fn previous_details(table: Map<Pid, PrevProcDetails>, pid: Pid) -> PrevProcDetails {
    if table.contains_key(pid) {
        table[pid]
    } else {
        PrevProcDetails::default_spec()
    }
}

impl View for PidSet {
    type V = Set<Pid>;

    open spec fn view(&self) -> Set<Pid> {
        pid_set_members(*self)
    }
}

impl PidSet {
    /// A set without members.
    pub fn new() -> (set: PidSet)
        ensures
            set@ == Set::<Pid>::empty(),
    {
        pid_set_new()
    }

    /// Makes `pid` a member.
    pub fn insert(&mut self, pid: Pid)
        ensures
            final(self)@ == old(self)@.insert(pid),
    {
        pid_set_insert(self, pid)
    }

    /// Whether `pid` is a member.
    pub fn contains(&self, pid: Pid) -> (found: bool)
        ensures
            found == self@.contains(pid),
    {
        pid_set_contains(self, pid)
    }
}

impl View for GpuProcTable {
    type V = Map<u32, (u64, u32)>;

    open spec fn view(&self) -> Map<u32, (u64, u32)> {
        gpu_proc_entries(*self)
    }
}

impl GpuProcTable {
    /// A table without entries.
    pub fn new() -> (table: GpuProcTable)
        ensures
            table@ == Map::<u32, (u64, u32)>::empty(),
    {
        gpu_procs_new()
    }

    /// The memory and the utilisation stored for `pid`, if any are.
    pub fn get(&self, pid: u32) -> (found: Option<(u64, u32)>)
        ensures
            found == if self@.contains_key(pid) {
                Some(self@[pid])
            } else {
                None
            },
    {
        gpu_procs_get(self, pid)
    }

    /// Stores `usage` for `pid`, in place of what was stored for it.
    pub fn insert(&mut self, pid: u32, usage: (u64, u32))
        ensures
            final(self)@ == old(self)@.insert(pid, usage),
    {
        gpu_procs_insert(self, pid, usage)
    }

    /// Whether the table has no entry.
    pub fn is_empty(&self) -> (empty: bool)
        ensures
            empty <==> self@ =~= Map::<u32, (u64, u32)>::empty(),
    {
        gpu_procs_is_empty(self)
    }
}

} // verus!
