use data_harvester::error::HarvestError;
use data_harvester::harvester::{gpu_key_of, gpu_usage_of, linux_process_data, DataCollector};
use data_harvester::processes::{Io, PrevProcDetails, Process, Stat};
use data_harvester::tables::{GpuProcTable, PidSet, PidTable};
use data_harvester::users::UserTable;

fn collector() -> DataCollector {
    DataCollector {
        prev_idle: 100,
        prev_non_idle: 200,
        use_current_cpu_total: true,
        unnormalized_cpu: false,
        total_memory: 10_000,
        num_processors: 4,
        pid_mapping: PidTable::new(),
        user_table: UserTable::new(),
        gpu_pids: None,
    }
}

fn process(pid: i32, ticks: u64, read_bytes: u64) -> Process {
    Process {
        pid,
        uid: Some(pid as u32 + 1000),
        stat: Stat {
            comm: format!("proc{}", pid),
            state: 'S',
            ppid: 1,
            utime: ticks,
            stime: 0,
            rss_bytes: 100,
        },
        io: Some(Io { read_bytes, write_bytes: 0 }),
        cmdline: None,
    }
}

fn names(uid: u32) -> Option<String> {
    if uid == 4242 {
        None
    } else {
        Some(format!("user{}", uid))
    }
}

fn sorted_keys(table: &PidTable) -> Vec<i32> {
    let mut keys = table.keys();
    keys.sort();
    keys
}

const LINE: &str = "230 0 0 120";

#[test]
fn a_tick_without_cpu_counters_fails_and_changes_nothing() {
    let mut c = collector();
    c.pid_mapping.insert(7, PrevProcDetails { total_read_bytes: 1, total_write_bytes: 2, cpu_time: 3 });
    let entries = vec![Some(process(1, 10, 10))];
    let result = linux_process_data(&mut c, None, &entries, &names, 5);
    assert!(matches!(
        result,
        Err(HarvestError::GenericError(ref m)) if m == "Could not calculate CPU usage."
    ));
    assert_eq!((c.prev_idle, c.prev_non_idle), (100, 200));
    assert_eq!(sorted_keys(&c.pid_mapping), vec![7]);
    assert!(c.user_table.uid_user_mapping.is_empty());
}

#[test]
fn a_new_process_is_measured_from_zero() {
    let mut c = collector();
    let entries = vec![Some(process(1, 500, 700))];
    let harvests = linux_process_data(&mut c, Some(LINE), &entries, &names, 5).unwrap();
    assert_eq!(harvests.len(), 1);
    let h = &harvests[0];
    assert_eq!((h.cpu_usage_percent.num, h.cpu_usage_percent.den), (50_000, 30));
    assert_eq!(h.read_bytes_per_sec, 140);
    assert_eq!(h.user, "user1001");
    assert_eq!((c.prev_idle, c.prev_non_idle), (120, 230));
    let kept = c.pid_mapping.get(1).unwrap();
    assert_eq!((kept.cpu_time, kept.total_read_bytes, kept.total_write_bytes), (500, 700, 0));
}

#[test]
fn a_process_that_is_gone_is_forgotten() {
    let mut c = collector();
    let first = vec![Some(process(1, 10, 0)), Some(process(2, 20, 0)), Some(process(3, 30, 0))];
    linux_process_data(&mut c, Some(LINE), &first, &names, 5).unwrap();
    assert_eq!(sorted_keys(&c.pid_mapping), vec![1, 2, 3]);
    let second = vec![Some(process(3, 35, 0)), Some(process(1, 12, 0))];
    let harvests = linux_process_data(&mut c, Some("250 0 0 130"), &second, &names, 5).unwrap();
    assert_eq!(sorted_keys(&c.pid_mapping), vec![1, 3]);
    assert!(c.pid_mapping.get(2).is_none());
    assert_eq!(harvests.iter().map(|h| h.pid).collect::<Vec<_>>(), vec![3, 1]);
    assert_eq!((harvests[0].cpu_usage_percent.num, harvests[0].cpu_usage_percent.den), (500, 20));
    assert_eq!((harvests[1].cpu_usage_percent.num, harvests[1].cpu_usage_percent.den), (200, 20));
    let third: Vec<Option<Process>> = vec![];
    linux_process_data(&mut c, Some("260 0 0 140"), &third, &names, 5).unwrap();
    assert!(c.pid_mapping.keys().is_empty());
}

#[test]
fn unreadable_entries_are_skipped() {
    let mut c = collector();
    let entries = vec![None, Some(process(5, 10, 0)), None, Some(process(6, 20, 0)), None];
    let harvests = linux_process_data(&mut c, Some(LINE), &entries, &names, 5).unwrap();
    assert_eq!(harvests.iter().map(|h| h.pid).collect::<Vec<_>>(), vec![5, 6]);
    assert_eq!(sorted_keys(&c.pid_mapping), vec![5, 6]);
}

#[test]
fn an_unknown_owner_does_not_stop_the_tick() {
    let mut c = collector();
    let mut p = process(1, 10, 0);
    p.uid = Some(4242);
    let entries = vec![Some(p), Some(process(2, 10, 0))];
    let harvests = linux_process_data(&mut c, Some(LINE), &entries, &names, 5).unwrap();
    assert_eq!(harvests[0].user, "N/A");
    assert_eq!(harvests[1].user, "user1002");
    assert_eq!(c.user_table.cached(4242), None);
    assert_eq!(c.user_table.cached(1002), Some("user1002".to_string()));
}

#[test]
fn unreadable_io_keeps_the_process_in_the_report() {
    let mut c = collector();
    c.use_current_cpu_total = false;
    let mut p = process(1, 60, 900);
    p.io = None;
    let harvests = linux_process_data(&mut c, Some(LINE), &vec![Some(p)], &names, 5).unwrap();
    let h = &harvests[0];
    assert_eq!((h.read_bytes_per_sec, h.write_bytes_per_sec), (0, 0));
    assert_eq!((h.total_read_bytes, h.total_write_bytes), (0, 0));
    assert_eq!((h.cpu_usage_percent.num, h.cpu_usage_percent.den), (6000, 50));
    assert_eq!((h.mem_usage_percent.num, h.mem_usage_percent.den), (10_000, 10_000));
    let kept = c.pid_mapping.get(1).unwrap();
    assert_eq!((kept.cpu_time, kept.total_read_bytes, kept.total_write_bytes), (60, 0, 0));
}

#[test]
fn no_time_elapsed_gives_no_rate() {
    let mut c = collector();
    c.pid_mapping.insert(1, PrevProcDetails { total_read_bytes: 100, total_write_bytes: 0, cpu_time: 0 });
    let mut p = process(1, 10, 5000);
    p.io = Some(Io { read_bytes: 5000, write_bytes: 70 });
    let harvests = linux_process_data(&mut c, Some(LINE), &vec![Some(p)], &names, 0).unwrap();
    assert_eq!((harvests[0].read_bytes_per_sec, harvests[0].write_bytes_per_sec), (0, 0));
    assert_eq!((harvests[0].total_read_bytes, harvests[0].total_write_bytes), (5000, 70));
}

#[test]
fn usage_per_core_when_not_normalised() {
    let mut c = collector();
    c.unnormalized_cpu = true;
    let harvests =
        linux_process_data(&mut c, Some(LINE), &vec![Some(process(1, 15, 0))], &names, 5).unwrap();
    let percent = harvests[0].cpu_usage_percent;
    assert_eq!((percent.num, percent.den), (6000, 30));
    assert_eq!(percent.num as f64 / percent.den as f64, 15.0 / (30.0 / 4.0) * 100.0);
}

#[test]
fn an_identifier_that_comes_twice_is_measured_against_its_first_reading() {
    let mut c = collector();
    let entries = vec![Some(process(1, 100, 0)), Some(process(1, 160, 0))];
    let harvests = linux_process_data(&mut c, Some(LINE), &entries, &names, 5).unwrap();
    assert_eq!(harvests.len(), 2);
    assert_eq!(harvests[0].cpu_usage_percent.num, 10_000);
    assert_eq!(harvests[1].cpu_usage_percent.num, 6_000);
    assert_eq!(c.pid_mapping.get(1).unwrap().cpu_time, 160);
    assert_eq!(sorted_keys(&c.pid_mapping), vec![1]);
}

#[test]
fn gpu_usage_is_summed_over_the_gpus() {
    let mut first = GpuProcTable::new();
    first.insert(1, (1000, 10));
    first.insert(2, (50, 5));
    let mut second = GpuProcTable::new();
    second.insert(1, (24, 7));
    let gpus = vec![first, second, GpuProcTable::new()];
    assert_eq!(gpu_usage_of(&gpus, 1), (1024, 17));
    assert_eq!(gpu_usage_of(&gpus, 2), (50, 5));
    assert_eq!(gpu_usage_of(&gpus, 3), (0, 0));

    let mut c = collector();
    c.gpu_pids = Some(gpus);
    let entries = vec![Some(process(1, 1, 0)), Some(process(3, 1, 0))];
    let harvests = linux_process_data(&mut c, Some(LINE), &entries, &names, 5).unwrap();
    assert_eq!((harvests[0].gpu_mem, harvests[0].gpu_util), (1024, 17));
    assert_eq!((harvests[1].gpu_mem, harvests[1].gpu_util), (0, 0));
}

#[test]
fn gpu_sums_stay_at_the_limit() {
    let mut first = GpuProcTable::new();
    first.insert(1, (u64::MAX, u32::MAX));
    let mut second = GpuProcTable::new();
    second.insert(1, (1, 1));
    assert_eq!(gpu_usage_of(&vec![first, second], 1), (u64::MAX, u32::MAX));
}

#[test]
fn gpu_keys() {
    assert_eq!(gpu_key_of(0), 0);
    assert_eq!(gpu_key_of(i32::MAX), i32::MAX as u32);
    assert_eq!(gpu_key_of(-1), u32::MAX);
    assert_eq!(gpu_key_of(i32::MIN), i32::MIN as u32);
}

#[test]
fn tables_behave_as_maps_and_sets() {
    let mut table = PidTable::new();
    assert!(table.keys().is_empty());
    assert!(table.get(1).is_none());
    assert_eq!(table.get_or_default(1).cpu_time, 0);
    table.insert(1, PrevProcDetails { total_read_bytes: 1, total_write_bytes: 2, cpu_time: 3 });
    table.insert(2, PrevProcDetails { total_read_bytes: 4, total_write_bytes: 5, cpu_time: 6 });
    table.insert(1, PrevProcDetails { total_read_bytes: 7, total_write_bytes: 8, cpu_time: 9 });
    assert_eq!(sorted_keys(&table), vec![1, 2]);
    assert_eq!(table.get(1).unwrap().cpu_time, 9);
    assert_eq!(table.get_or_default(2).total_write_bytes, 5);
    table.remove(1);
    table.remove(5);
    assert_eq!(sorted_keys(&table), vec![2]);

    let mut live = PidSet::new();
    assert!(!live.contains(2));
    live.insert(3);
    live.insert(3);
    assert!(live.contains(3) && !live.contains(2));
    table.insert(3, PrevProcDetails::default());
    table.insert(4, PrevProcDetails::default());
    table.retain_live(&live);
    assert_eq!(sorted_keys(&table), vec![3]);

    let mut gpu = GpuProcTable::new();
    assert!(gpu.is_empty());
    assert_eq!(gpu.get(1), None);
    gpu.insert(1, (2, 3));
    assert!(!gpu.is_empty());
    assert_eq!(gpu.get(1), Some((2, 3)));
    gpu.insert(1, (4, 5));
    assert_eq!(gpu.get(1), Some((4, 5)));
    assert_eq!(gpu.get(2), None);
}
