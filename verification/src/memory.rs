//! Memory in use: of the machine, as the kernel's memory table gives it,
//! and of the ZFS cache, as its statistics give it.

use crate::ratio::Ratio;
use crate::text::{
    chars_eq, lines, lines_spec, parse_u64, parse_u64_spec, rsplit_once, rsplit_once_spec,
    slice_views, split_once, split_once_spec, to_chars, trim_start, trim_start_spec,
};
use vstd::prelude::*;

verus! {

/// How much of a pool of memory is in use.
#[derive(Debug, Clone, Copy)]
pub struct MemHarvest {
    pub mem_total_in_kib: u64,
    pub mem_used_in_kib: u64,
    /// The share in use, in percent; nothing for a pool of no size.
    pub use_percent: Option<Ratio>,
}

/// `used` as a share of `total`, in percent; nothing where there is no
/// `total`.
pub open spec fn use_percent(used: u64, total: u64) -> Option<Ratio> {
    if total == 0 {
        None
    } else {
        Some(Ratio { num: (used * 100) as i128, den: total as i128 })
    }
}

impl MemHarvest {
    /// The harvest of a pool of `total` KiB of which `used` are in use.
    pub open spec fn new_spec(total: u64, used: u64) -> MemHarvest {
        MemHarvest {
            mem_total_in_kib: total,
            mem_used_in_kib: used,
            use_percent: use_percent(used, total),
        }
    }

    /// The harvest of a pool of `total` KiB of which `used` are in use.
    #[verifier::when_used_as_spec(new_spec)]
    pub fn new(total: u64, used: u64) -> (harvest: MemHarvest)
        ensures
            harvest == MemHarvest::new_spec(total, used),
    {
        MemHarvest {
            mem_total_in_kib: total,
            mem_used_in_kib: used,
            use_percent: if total == 0 {
                None
            } else {
                Some(Ratio { num: (used as i128) * 100, den: total as i128 })
            },
        }
    }
}

/// The entries of the kernel's memory table that the use of memory is
/// computed from, in KiB, and how many entries were taken so far.
#[derive(Debug, Clone, Copy)]
pub struct MemInfo {
    pub mem_total: u64,
    pub mem_free: u64,
    pub buffers: u64,
    pub cached: u64,
    pub shmem: u64,
    pub s_reclaimable: u64,
    pub keys_read: u8,
}

/// The number of entries after which the memory table is read no further.
pub const TOTAL_KEYS_NEEDED: u8 = 6;

/// The number at the head of `value`, which a space and a unit follow.
pub open spec fn number_before_unit(value: Seq<char>) -> Option<u64> {
    match split_once_spec(trim_start_spec(value), ' ') {
        Some((number, _)) => parse_u64_spec(number),
        None => None,
    }
}

/// The number at the end of `value`, which stands after the last space.
pub open spec fn number_after_type(value: Seq<char>) -> Option<u64> {
    match rsplit_once_spec(trim_start_spec(value), ' ') {
        Some((_, number)) => parse_u64_spec(number),
        None => None,
    }
}

/// `info` with the entry `label` set to `number`, and one more entry
/// counted. A label that is none of the six leaves `info` as it is.
pub open spec fn with_entry(info: MemInfo, label: Seq<char>, number: u64) -> MemInfo {
    let counted = MemInfo { keys_read: (info.keys_read + 1) as u8, ..info };
    if label == "MemTotal"@ {
        MemInfo { mem_total: number, ..counted }
    } else if label == "MemFree"@ {
        MemInfo { mem_free: number, ..counted }
    } else if label == "Buffers"@ {
        MemInfo { buffers: number, ..counted }
    } else if label == "Cached"@ {
        MemInfo { cached: number, ..counted }
    } else if label == "Shmem"@ {
        MemInfo { shmem: number, ..counted }
    } else if label == "SReclaimable"@ {
        MemInfo { s_reclaimable: number, ..counted }
    } else {
        info
    }
}

/// `info` after one line of the memory table: a line of the form
/// `label: number unit` sets the entry `label`; any other line changes
/// nothing.
pub open spec fn after_meminfo_line(info: MemInfo, line: Seq<char>) -> MemInfo {
    match split_once_spec(line, ':') {
        Some((label, value)) => match number_before_unit(value) {
            Some(number) => with_entry(info, label, number),
            None => info,
        },
        None => info,
    }
}

/// `info` after the lines `lines` of the memory table, read in order
/// until six entries are taken.
pub open spec fn after_meminfo_lines(info: MemInfo, lines: Seq<Seq<char>>) -> MemInfo
    decreases lines.len(),
{
    if lines.len() == 0 || info.keys_read >= TOTAL_KEYS_NEEDED {
        info
    } else {
        after_meminfo_lines(after_meminfo_line(info, lines[0]), lines.drop_first())
    }
}

/// A memory table of which nothing is known yet.
pub open spec fn no_meminfo() -> MemInfo {
    MemInfo {
        mem_total: 0,
        mem_free: 0,
        buffers: 0,
        cached: 0,
        shmem: 0,
        s_reclaimable: 0,
        keys_read: 0,
    }
}

/// The memory in use, in KiB: the total less what is free, cached or in
/// buffers, where reclaimable slabs count as cached and shared memory
/// does not. Where that would exceed the total, the total less what is
/// free. No step goes below zero or beyond the largest `u64`.
pub open spec fn used_memory(info: MemInfo) -> u64 {
    let cached_mem = info.cached.saturating_add(info.s_reclaimable).saturating_sub(info.shmem);
    let used_diff = info.mem_free.saturating_add(cached_mem).saturating_add(info.buffers);
    if info.mem_total >= used_diff {
        (info.mem_total - used_diff) as u64
    } else {
        info.mem_total.saturating_sub(info.mem_free)
    }
}

/// Reads one line of the memory table into `info`.
pub fn read_meminfo_line(info: MemInfo, line: &[char]) -> (after: MemInfo)
    requires
        info.keys_read < u8::MAX,
    ensures
        after == after_meminfo_line(info, line@),
        after.keys_read == info.keys_read || after.keys_read == info.keys_read + 1,
{
    let (label, value) = match split_once(line, ':') {
        Some(parts) => parts,
        None => {
            return info;
        },
    };
    let number = match split_once(trim_start(value), ' ') {
        Some((number, _unit)) => match parse_u64(number) {
            Some(number) => number,
            None => {
                return info;
            },
        },
        None => {
            return info;
        },
    };
    let keys_read = info.keys_read + 1;
    if chars_eq(label, to_chars("MemTotal").as_slice()) {
        MemInfo { mem_total: number, keys_read, ..info }
    } else if chars_eq(label, to_chars("MemFree").as_slice()) {
        MemInfo { mem_free: number, keys_read, ..info }
    } else if chars_eq(label, to_chars("Buffers").as_slice()) {
        MemInfo { buffers: number, keys_read, ..info }
    } else if chars_eq(label, to_chars("Cached").as_slice()) {
        MemInfo { cached: number, keys_read, ..info }
    } else if chars_eq(label, to_chars("Shmem").as_slice()) {
        MemInfo { shmem: number, keys_read, ..info }
    } else if chars_eq(label, to_chars("SReclaimable").as_slice()) {
        MemInfo { s_reclaimable: number, keys_read, ..info }
    } else {
        info
    }
}

/// Reads the memory table `meminfo`, line by line, until six of its
/// entries are taken.
pub fn read_meminfo(meminfo: &str) -> (info: MemInfo)
    ensures
        info == after_meminfo_lines(no_meminfo(), lines_spec(meminfo@)),
{
    let chars = to_chars(meminfo);
    let all = lines(chars.as_slice());
    let mut info = MemInfo {
        mem_total: 0,
        mem_free: 0,
        buffers: 0,
        cached: 0,
        shmem: 0,
        s_reclaimable: 0,
        keys_read: 0,
    };
    let mut i: usize = 0;
    assert(slice_views(all@).skip(0) =~= slice_views(all@));
    while i < all.len() && info.keys_read < TOTAL_KEYS_NEEDED
        invariant
            i <= all.len(),
            info.keys_read <= TOTAL_KEYS_NEEDED,
            slice_views(all@) == lines_spec(meminfo@),
            after_meminfo_lines(no_meminfo(), slice_views(all@)) == after_meminfo_lines(
                info,
                slice_views(all@).skip(i as int),
            ),
        decreases all.len() - i,
    {
        proof {
            let rest = slice_views(all@).skip(i as int);
            assert(rest[0] == all@[i as int]@);
            assert(rest.drop_first() =~= slice_views(all@).skip(i + 1));
        }
        info = read_meminfo_line(info, all[i]);
        i += 1;
    }
    info
}

/// The memory of the machine in use, as the memory table `meminfo` gives
/// it.
pub fn get_ram_data(meminfo: &str) -> (harvest: MemHarvest)
    ensures
        harvest == MemHarvest::new_spec(
            after_meminfo_lines(no_meminfo(), lines_spec(meminfo@)).mem_total,
            used_memory(after_meminfo_lines(no_meminfo(), lines_spec(meminfo@))),
        ),
{
    let info = read_meminfo(meminfo);
    let total = info.mem_total;
    let cached_mem = info.cached.saturating_add(info.s_reclaimable).saturating_sub(info.shmem);
    let used_diff = info.mem_free.saturating_add(cached_mem).saturating_add(info.buffers);
    let used = if total >= used_diff {
        total - used_diff
    } else {
        total.saturating_sub(info.mem_free)
    };
    MemHarvest::new(total, used)
}

/// The entries of the statistics of the ZFS cache that its use of memory
/// is computed from, in bytes, and how many entries were taken so far.
#[derive(Debug, Clone, Copy)]
pub struct ArcInfo {
    pub mem_arc: u64,
    pub mem_total: u64,
    pub keys_read: u8,
}

/// The number of entries after which the statistics of the cache are read
/// no further.
pub const ZFS_KEYS_NEEDED: u8 = 2;

/// `info` after one line of the statistics: a line of the form `label
/// type number` sets the size of the cache where the label is `size`, and
/// the memory of the machine where it is `memory_all_bytes`; any other
/// line changes nothing.
pub open spec fn after_arcstats_line(info: ArcInfo, line: Seq<char>) -> ArcInfo {
    match split_once_spec(line, ' ') {
        Some((label, value)) => match number_after_type(value) {
            Some(number) => if label == "size"@ {
                ArcInfo { mem_arc: number, keys_read: (info.keys_read + 1) as u8, ..info }
            } else if label == "memory_all_bytes"@ {
                ArcInfo { mem_total: number, keys_read: (info.keys_read + 1) as u8, ..info }
            } else {
                info
            },
            None => info,
        },
        None => info,
    }
}

/// `info` after the lines `lines` of the statistics, read in order until
/// two entries are taken.
pub open spec fn after_arcstats_lines(info: ArcInfo, lines: Seq<Seq<char>>) -> ArcInfo
    decreases lines.len(),
{
    if lines.len() == 0 || info.keys_read >= ZFS_KEYS_NEEDED {
        info
    } else {
        after_arcstats_lines(after_arcstats_line(info, lines[0]), lines.drop_first())
    }
}

/// Statistics of which nothing is known yet.
pub open spec fn no_arcstats() -> ArcInfo {
    ArcInfo { mem_arc: 0, mem_total: 0, keys_read: 0 }
}

/// Reads one line of the statistics of the cache into `info`.
pub fn read_arcstats_line(info: ArcInfo, line: &[char]) -> (after: ArcInfo)
    requires
        info.keys_read < u8::MAX,
    ensures
        after == after_arcstats_line(info, line@),
        after.keys_read == info.keys_read || after.keys_read == info.keys_read + 1,
{
    let (label, value) = match split_once(line, ' ') {
        Some(parts) => parts,
        None => {
            return info;
        },
    };
    let number = match rsplit_once(trim_start(value), ' ') {
        Some((_type, number)) => match parse_u64(number) {
            Some(number) => number,
            None => {
                return info;
            },
        },
        None => {
            return info;
        },
    };
    let keys_read = info.keys_read + 1;
    if chars_eq(label, to_chars("size").as_slice()) {
        ArcInfo { mem_arc: number, keys_read, ..info }
    } else if chars_eq(label, to_chars("memory_all_bytes").as_slice()) {
        ArcInfo { mem_total: number, keys_read, ..info }
    } else {
        info
    }
}

/// Reads the statistics `arcstats` of the cache, line by line, until two
/// of its entries are taken.
pub fn read_arcstats(arcstats: &str) -> (info: ArcInfo)
    ensures
        info == after_arcstats_lines(no_arcstats(), lines_spec(arcstats@)),
{
    let chars = to_chars(arcstats);
    let all = lines(chars.as_slice());
    let mut info = ArcInfo { mem_arc: 0, mem_total: 0, keys_read: 0 };
    let mut i: usize = 0;
    assert(slice_views(all@).skip(0) =~= slice_views(all@));
    while i < all.len() && info.keys_read < ZFS_KEYS_NEEDED
        invariant
            i <= all.len(),
            info.keys_read <= ZFS_KEYS_NEEDED,
            slice_views(all@) == lines_spec(arcstats@),
            after_arcstats_lines(no_arcstats(), slice_views(all@)) == after_arcstats_lines(
                info,
                slice_views(all@).skip(i as int),
            ),
        decreases all.len() - i,
    {
        proof {
            let rest = slice_views(all@).skip(i as int);
            assert(rest[0] == all@[i as int]@);
            assert(rest.drop_first() =~= slice_views(all@).skip(i + 1));
        }
        info = read_arcstats_line(info, all[i]);
        i += 1;
    }
    info
}

/// The memory that the ZFS cache uses, out of the memory of the machine,
/// as the statistics `arcstats` give them.
pub fn get_arc_data(arcstats: &str) -> (harvest: MemHarvest)
    ensures
        harvest == MemHarvest::new_spec(
            after_arcstats_lines(no_arcstats(), lines_spec(arcstats@)).mem_total / 1024,
            after_arcstats_lines(no_arcstats(), lines_spec(arcstats@)).mem_arc / 1024,
        ),
{
    let info = read_arcstats(arcstats);
    MemHarvest::new(info.mem_total / 1024, info.mem_arc / 1024)
}

/// The memory that the ZFS cache uses, given the size of the cache and
/// the memory of the machine in bytes. Where either is not known, both
/// count as zero.
pub fn arc_data_from_sizes(arc_size: Option<u64>, physical_memory: Option<u64>) -> (harvest:
    MemHarvest)
    ensures
        harvest == if arc_size is Some && physical_memory is Some {
            MemHarvest::new_spec((physical_memory->0 / 1024) as u64, (arc_size->0 / 1024) as u64)
        } else {
            MemHarvest::new_spec(0, 0)
        },
{
    match (arc_size, physical_memory) {
        (Some(arc), Some(mem)) => MemHarvest::new(mem / 1024, arc / 1024),
        _ => MemHarvest::new(0, 0),
    }
}

/// The memory of one GPU, in bytes.
pub struct GpuMemory {
    pub name: String,
    pub total: u64,
    pub used: u64,
}

/// The number of times that each GPU is listed.
pub const GPU_LISTINGS: u64 = 8;

/// The `k`-th listing of a GPU with `total` bytes of memory of which
/// `used` are in use. The first gives the memory as it is, in KiB. Each
/// further one has the total times `k`, and `k` MiB more in use.
pub open spec fn gpu_listing(total: u64, used: u64, k: u64) -> MemHarvest {
    if k == 1 {
        MemHarvest::new_spec(total / 1024, used / 1024)
    } else {
        MemHarvest::new_spec(((total / 1024) * k) as u64, (used / 1024 + 1024 * k) as u64)
    }
}

/// The listings of one GPU: eight, under its name, from the first to the
/// eighth.
pub open spec fn gpu_listings(name: Seq<char>, total: u64, used: u64) -> Seq<
    (Seq<char>, MemHarvest),
> {
    Seq::new(GPU_LISTINGS as nat, |i: int| (name, gpu_listing(total, used, (i + 1) as u64)))
}

/// The listings of the GPUs `devices` that could be read, in order.
pub open spec fn gpu_data(devices: Seq<Option<GpuMemory>>) -> Seq<(Seq<char>, MemHarvest)>
    decreases devices.len(),
{
    if devices.len() == 0 {
        Seq::empty()
    } else {
        match devices.last() {
            Some(device) => gpu_data(devices.drop_last()) + gpu_listings(
                device.name@,
                device.total,
                device.used,
            ),
            None => gpu_data(devices.drop_last()),
        }
    }
}

/// A list of named harvests with the names as sequences of characters.
pub open spec fn named_harvests(list: Seq<(String, MemHarvest)>) -> Seq<(Seq<char>, MemHarvest)> {
    Seq::new(list.len(), |i: int| (list[i].0@, list[i].1))
}

/// The memory of the GPUs `devices`, where nothing stands for a GPU that
/// could not be read.
pub fn get_gpu_data(devices: &Vec<Option<GpuMemory>>) -> (results: Vec<(String, MemHarvest)>)
    ensures
        named_harvests(results@) == gpu_data(devices@),
{
    let mut results: Vec<(String, MemHarvest)> = Vec::new();
    let mut i: usize = 0;
    assert(devices@.take(0) =~= Seq::empty());
    assert(named_harvests(results@) =~= Seq::empty());
    while i < devices.len()
        invariant
            i <= devices.len(),
            named_harvests(results@) == gpu_data(devices@.take(i as int)),
        decreases devices.len() - i,
    {
        proof {
            assert(devices@.take(i + 1).drop_last() =~= devices@.take(i as int));
            assert(devices@.take(i + 1).last() == devices@[i as int]);
        }
        match &devices[i] {
            Some(device) => {
                let mem_total_in_kib = device.total / 1024;
                let mem_used_in_kib = device.used / 1024;
                let ghost before = named_harvests(results@);
                let ghost listed = gpu_listings(device.name@, device.total, device.used);
                let mut k: u64 = 1;
                while k <= GPU_LISTINGS
                    invariant
                        1 <= k <= GPU_LISTINGS + 1,
                        mem_total_in_kib == device.total / 1024,
                        mem_used_in_kib == device.used / 1024,
                        listed == gpu_listings(device.name@, device.total, device.used),
                        named_harvests(results@) == before + listed.take(k - 1),
                    decreases GPU_LISTINGS + 1 - k,
                {
                    assert(mem_total_in_kib * k <= 0xffff_ffff_ffff_ffff) by (nonlinear_arith)
                        requires
                            0 <= mem_total_in_kib <= 0x3f_ffff_ffff_ffff,
                            1 <= k <= 8,
                    ;
                    let harvest = if k == 1 {
                        MemHarvest::new(mem_total_in_kib, mem_used_in_kib)
                    } else {
                        MemHarvest::new(mem_total_in_kib * k, mem_used_in_kib + 1024 * k)
                    };
                    let ghost shown = named_harvests(results@);
                    let name = device.name.clone();
                    results.push((name, harvest));
                    proof {
                        assert(listed[k - 1] == (device.name@, harvest));
                        assert(named_harvests(results@) =~= shown.push((device.name@, harvest)));
                        assert(listed.take(k as int) =~= listed.take(k - 1).push(listed[k - 1]));
                        assert(before + listed.take(k as int) =~= (before + listed.take(
                            k - 1,
                        )).push(listed[k - 1]));
                    }
                    k += 1;
                }
                assert(listed.take(GPU_LISTINGS as int) =~= listed);
            },
            None => {},
        }
        i += 1;
    }
    assert(devices@.take(i as int) =~= devices@);
    results
}

} // verus!
