use data_harvester::memory::{
    arc_data_from_sizes, get_arc_data, get_gpu_data, get_ram_data, read_arcstats, read_meminfo,
    read_meminfo_line, GpuMemory, MemHarvest, MemInfo, GPU_LISTINGS, TOTAL_KEYS_NEEDED,
    ZFS_KEYS_NEEDED,
};

const MEMINFO: &str = "MemTotal:       16316412 kB
MemFree:         1000000 kB
MemAvailable:    9000000 kB
Buffers:          200000 kB
Cached:          3000000 kB
SwapCached:            0 kB
Shmem:            500000 kB
HugePages_Total:       0
SReclaimable:     400000 kB
SUnreclaim:       100000 kB
";

fn percent(harvest: &MemHarvest) -> Option<(i128, i128)> {
    harvest.use_percent.map(|r| (r.num, r.den))
}

#[test]
fn a_pool_and_its_share() {
    let harvest = MemHarvest::new(2048, 512);
    assert_eq!((harvest.mem_total_in_kib, harvest.mem_used_in_kib), (2048, 512));
    assert_eq!(percent(&harvest), Some((51_200, 2048)));
    let r = harvest.use_percent.unwrap();
    assert_eq!(r.num as f64 / r.den as f64, 25.0);
    let harvest = MemHarvest::new(0, 512);
    assert_eq!(percent(&harvest), None);
    let harvest = MemHarvest::new(1, u64::MAX);
    assert_eq!(percent(&harvest), Some((u64::MAX as i128 * 100, 1)));
}

#[test]
fn the_memory_table_is_read_by_label() {
    let info = read_meminfo(MEMINFO);
    assert_eq!(info.mem_total, 16316412);
    assert_eq!(info.mem_free, 1000000);
    assert_eq!(info.buffers, 200000);
    assert_eq!(info.cached, 3000000);
    assert_eq!(info.shmem, 500000);
    assert_eq!(info.s_reclaimable, 400000);
    assert_eq!(info.keys_read, 6);
    assert_eq!(TOTAL_KEYS_NEEDED, 6);
}

#[test]
fn memory_in_use() {
    let harvest = get_ram_data(MEMINFO);
    let cached = 3000000 + 400000 - 500000;
    let used = 16316412 - (1000000 + cached + 200000);
    assert_eq!(harvest.mem_total_in_kib, 16316412);
    assert_eq!(harvest.mem_used_in_kib, used);
    assert_eq!(percent(&harvest), Some((used as i128 * 100, 16316412)));
}

#[test]
fn reading_stops_after_six_entries() {
    let text = "MemTotal: 1 kB\nMemTotal: 2 kB\nMemTotal: 3 kB\nMemTotal: 4 kB\nMemTotal: 5 kB\nMemTotal: 6 kB\nMemTotal: 7 kB\nMemFree: 9 kB\n";
    let info = read_meminfo(text);
    assert_eq!(info.mem_total, 6);
    assert_eq!(info.mem_free, 0);
    assert_eq!(info.keys_read, 6);
}

#[test]
fn lines_that_are_no_entries_are_passed_over() {
    let text = "MemTotal 5 kB\nMemTotal: 5\nMemTotal: x kB\nmemtotal: 5 kB\n MemTotal: 5 kB\nMemTotal:7 kB\r\nMemFree:\t \u{a0}8 kB and more\n";
    let info = read_meminfo(text);
    assert_eq!(info.mem_total, 7);
    assert_eq!(info.mem_free, 8);
    assert_eq!(info.keys_read, 2);
    let empty = read_meminfo("");
    assert_eq!((empty.mem_total, empty.keys_read), (0, 0));
}

#[test]
fn one_line_of_the_memory_table() {
    let start = MemInfo {
        mem_total: 1,
        mem_free: 2,
        buffers: 3,
        cached: 4,
        shmem: 5,
        s_reclaimable: 6,
        keys_read: 0,
    };
    let line: Vec<char> = "Shmem: 77 kB".chars().collect();
    let after = read_meminfo_line(start, &line);
    assert_eq!((after.shmem, after.keys_read, after.cached), (77, 1, 4));
    let line: Vec<char> = "Other: 77 kB".chars().collect();
    let after = read_meminfo_line(start, &line);
    assert_eq!((after.shmem, after.keys_read), (5, 0));
}

#[test]
fn memory_in_use_never_goes_below_zero() {
    let harvest = get_ram_data("MemTotal: 100 kB\nMemFree: 50 kB\nCached: 80 kB\n");
    assert_eq!((harvest.mem_total_in_kib, harvest.mem_used_in_kib), (100, 50));
    let harvest = get_ram_data("MemTotal: 100 kB\nMemFree: 150 kB\n");
    assert_eq!((harvest.mem_total_in_kib, harvest.mem_used_in_kib), (100, 0));
    let harvest = get_ram_data("MemTotal: 100 kB\nCached: 10 kB\nShmem: 30 kB\nMemFree: 20 kB\n");
    assert_eq!(harvest.mem_used_in_kib, 80);
    let harvest = get_ram_data(
        "MemTotal: 18446744073709551615 kB\nCached: 18446744073709551615 kB\nSReclaimable: 5 kB\n",
    );
    assert_eq!(harvest.mem_used_in_kib, 0);
    let harvest = get_ram_data("");
    assert_eq!((harvest.mem_total_in_kib, harvest.mem_used_in_kib), (0, 0));
    assert!(harvest.use_percent.is_none());
}

const ARCSTATS: &str = "13 1 0x01 123 33456 7430147607 9321390226887
name                            type data
hits                            4    1292929
size                            4    2147483648
memory_all_bytes                4    17179869184
memory_free_bytes               4    1000
";

#[test]
fn the_cache_statistics_are_read_by_label() {
    let info = read_arcstats(ARCSTATS);
    assert_eq!((info.mem_arc, info.mem_total, info.keys_read), (2147483648, 17179869184, 2));
    assert_eq!(ZFS_KEYS_NEEDED, 2);
    let harvest = get_arc_data(ARCSTATS);
    assert_eq!((harvest.mem_total_in_kib, harvest.mem_used_in_kib), (16777216, 2097152));
    assert_eq!(percent(&harvest), Some((209_715_200, 16777216)));
}

#[test]
fn the_cache_statistics_stop_after_two_entries() {
    let info = read_arcstats("size 4 1\nsize 4 2\nmemory_all_bytes 4 3\n");
    assert_eq!((info.mem_arc, info.mem_total, info.keys_read), (2, 0, 2));
    let info = read_arcstats("size 1\nsize  x\nsize\nsize 4 5 \nmemory_all_bytes 4 2048\n");
    assert_eq!((info.mem_arc, info.mem_total, info.keys_read), (0, 2048, 1));
    let info = read_arcstats("size  4   17\nmemory_all_bytes\t4 2048\n");
    assert_eq!((info.mem_arc, info.mem_total, info.keys_read), (17, 0, 1));
    let harvest = get_arc_data("");
    assert_eq!((harvest.mem_total_in_kib, harvest.mem_used_in_kib), (0, 0));
    assert!(harvest.use_percent.is_none());
}

#[test]
fn the_cache_from_sizes() {
    let harvest = arc_data_from_sizes(Some(4096), Some(1024 * 1024));
    assert_eq!((harvest.mem_total_in_kib, harvest.mem_used_in_kib), (1024, 4));
    for (arc, mem) in [(None, Some(5000)), (Some(5000), None), (None, None)] {
        let harvest = arc_data_from_sizes(arc, mem);
        assert_eq!((harvest.mem_total_in_kib, harvest.mem_used_in_kib), (0, 0));
        assert!(harvest.use_percent.is_none());
    }
}

#[test]
fn each_gpu_is_listed_eight_times() {
    assert_eq!(GPU_LISTINGS, 8);
    let devices = vec![
        None,
        Some(GpuMemory { name: "first".to_string(), total: 8 * 1024 * 1024, used: 3 * 1024 }),
        None,
        Some(GpuMemory { name: "second".to_string(), total: 0, used: 0 }),
    ];
    let results = get_gpu_data(&devices);
    assert_eq!(results.len(), 16);
    for k in 1..=8u64 {
        let (name, harvest) = &results[k as usize - 1];
        assert_eq!(name, "first");
        assert_eq!(harvest.mem_total_in_kib, 8 * 1024 * k);
        let used = if k == 1 { 3 } else { 3 + 1024 * k };
        assert_eq!(harvest.mem_used_in_kib, used);
        assert_eq!(percent(harvest), Some((used as i128 * 100, (8 * 1024 * k) as i128)));
        let (name, harvest) = &results[8 + k as usize - 1];
        assert_eq!(name, "second");
        assert_eq!(harvest.mem_total_in_kib, 0);
        assert_eq!(harvest.mem_used_in_kib, if k == 1 { 0 } else { 1024 * k });
        assert_eq!(percent(harvest), None);
    }
    assert!(get_gpu_data(&vec![]).is_empty());
    assert!(get_gpu_data(&vec![None, None]).is_empty());
    let full = get_gpu_data(&vec![Some(GpuMemory {
        name: "full".to_string(),
        total: u64::MAX,
        used: u64::MAX,
    })]);
    assert_eq!(full[7].1.mem_total_in_kib, (u64::MAX / 1024) * 8);
    assert_eq!(full[7].1.mem_used_in_kib, u64::MAX / 1024 + 8192);
}
