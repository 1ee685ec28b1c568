use data_harvester::cpu::CpuUsage;
use data_harvester::processes::{
    build_harvest, bytes_per_sec, cpu_time_from_ticks, get_linux_cpu_usage, is_pid_dir,
    join_with_spaces,
    memory_percent, command_and_name, read_proc, Io, PrevProcDetails, Process,
    Stat, MAX_STAT_NAME_LEN,
};
use data_harvester::ratio::Ratio;
use data_harvester::users::UserTable;

fn stat(comm: &str, utime: u64, stime: u64) -> Stat {
    Stat { comm: comm.to_string(), state: 'S', ppid: 1, utime, stime, rss_bytes: 4096 }
}

fn cpu(cpu_usage: i128, total_delta: i128, divisor: u32) -> CpuUsage {
    CpuUsage { cpu_usage, total_delta, divisor }
}

fn value(r: Ratio) -> f64 {
    r.num as f64 / r.den as f64
}

fn no_lookup(_uid: u32) -> Option<String> {
    None
}

#[test]
fn first_sight_counts_all_ticks() {
    let (percent, ticks) = get_linux_cpu_usage(&stat("a", 300, 200), &cpu(30, 50, 1), 0, true);
    assert_eq!((percent.num, percent.den), (50_000, 30));
    assert!((value(percent) - (500.0 / 30.0) * 100.0).abs() < 1e-9);
    assert_eq!(ticks, 500);
}

#[test]
fn usage_against_all_ticks() {
    let (percent, ticks) = get_linux_cpu_usage(&stat("a", 10, 5), &cpu(30, 50, 1), 9, false);
    assert_eq!((percent.num, percent.den), (600, 50));
    assert!((value(percent) - (6.0 / 30.0) * 100.0 * 0.6).abs() < 1e-9);
    assert_eq!(ticks, 15);
}

#[test]
fn usage_per_core() {
    let (percent, _) = get_linux_cpu_usage(&stat("a", 10, 0), &cpu(40, 80, 4), 0, true);
    assert_eq!((percent.num, percent.den), (4000, 40));
    let (percent, _) = get_linux_cpu_usage(&stat("a", 10, 0), &cpu(40, 80, 4), 0, false);
    assert_eq!((percent.num, percent.den), (4000, 80));
    assert!((value(percent) - (10.0 / (40.0 / 4.0)) * 100.0 * 0.5).abs() < 1e-9);
}

#[test]
fn usage_without_busy_ticks_is_zero() {
    let (percent, ticks) = get_linux_cpu_usage(&stat("a", 10, 0), &cpu(0, 80, 1), 0, true);
    assert_eq!((percent.num, percent.den), (0, 1));
    assert_eq!(ticks, 10);
    let (percent, _) = get_linux_cpu_usage(&stat("a", 10, 0), &cpu(1, 0, 1), 0, false);
    assert_eq!((percent.num, percent.den), (0, 1));
    let (percent, _) = get_linux_cpu_usage(&stat("a", 10, 0), &cpu(1, 0, 1), 0, true);
    assert_eq!((percent.num, percent.den), (1000, 1));
}

#[test]
fn ticks_that_fell_back_count_as_none() {
    let (percent, ticks) = get_linux_cpu_usage(&stat("a", 10, 0), &cpu(30, 50, 1), 100, true);
    assert_eq!((percent.num, percent.den), (0, 30));
    assert_eq!(ticks, 10);
}

#[test]
fn ticks_at_the_limits() {
    let (percent, ticks) =
        get_linux_cpu_usage(&stat("a", u64::MAX, u64::MAX), &cpu(-7, 3, u32::MAX), 0, true);
    assert_eq!(ticks, u64::MAX);
    assert_eq!(percent.num, u64::MAX as i128 * 100 * u32::MAX as i128);
    assert_eq!(percent.den, -7);
    let zero = Ratio::zero();
    assert_eq!((zero.num, zero.den), (0, 1));
}

#[test]
fn io_rates() {
    assert_eq!(bytes_per_sec(1500, 1000, 5), 100);
    assert_eq!(bytes_per_sec(1500, 1000, 0), 0);
    assert_eq!(bytes_per_sec(1000, 1500, 5), 0);
    assert_eq!(bytes_per_sec(1004, 1000, 5), 0);
    assert_eq!(bytes_per_sec(1009, 1000, 5), 1);
    assert_eq!(bytes_per_sec(u64::MAX, 0, 1), u64::MAX);
}

#[test]
fn memory_share() {
    let percent = memory_percent(512, 2048);
    assert_eq!((percent.num, percent.den), (51_200, 2048));
    assert_eq!(value(percent), 25.0);
    let percent = memory_percent(512, 0);
    assert_eq!((percent.num, percent.den), (0, 1));
    let percent = memory_percent(u64::MAX, 1);
    assert_eq!(percent.num, u64::MAX as i128 * 100);
}

#[test]
fn cpu_time_of_ticks() {
    let time = cpu_time_from_ticks(250, 100);
    assert_eq!((time.secs, time.nanos), (2, 500_000_000));
    let time = cpu_time_from_ticks(1, 3);
    assert_eq!((time.secs, time.nanos), (0, 333_333_333));
    let time = cpu_time_from_ticks(250, 0);
    assert_eq!((time.secs, time.nanos), (0, 0));
    let time = cpu_time_from_ticks(250, u32::MAX as u64 + 1);
    assert_eq!((time.secs, time.nanos), (0, 0));
    let time = cpu_time_from_ticks(u64::MAX, u32::MAX as u64);
    let expected = std::time::Duration::from_secs(u64::MAX) / u32::MAX;
    assert_eq!((time.secs, time.nanos), (expected.as_secs(), expected.subsec_nanos()));
    for (ticks, rate) in [(0u64, 1u32), (7, 2), (12345, 100), (999_999_999_999, 1024)] {
        let time = cpu_time_from_ticks(ticks, rate as u64);
        let expected = std::time::Duration::from_secs(ticks) / rate;
        assert_eq!((time.secs, time.nanos), (expected.as_secs(), expected.subsec_nanos()));
    }
}

#[test]
fn joining_arguments() {
    assert_eq!(join_with_spaces(&vec![]), "");
    assert_eq!(join_with_spaces(&vec!["ls".to_string()]), "ls");
    assert_eq!(
        join_with_spaces(&vec!["ls".to_string(), "-l".to_string(), "".to_string(), "x y".to_string()]),
        "ls -l  x y"
    );
}

#[test]
fn names_and_commands() {
    assert_eq!(MAX_STAT_NAME_LEN, 15);
    let short = stat("bash", 0, 0);
    let long = stat("123456789012345", 0, 0);
    let args = |v: &[&str]| Some(v.iter().map(|s| s.to_string()).collect::<Vec<String>>());

    assert_eq!(command_and_name(&short, &None), ("bash".to_string(), "bash".to_string()));
    assert_eq!(command_and_name(&short, &args(&[])), ("[bash]".to_string(), "bash".to_string()));
    assert_eq!(
        command_and_name(&short, &args(&["/bin/bash", "-c", "true"])),
        ("/bin/bash -c true".to_string(), "bash".to_string())
    );
    assert_eq!(
        command_and_name(&long, &args(&["/usr/lib/very-long-program-name", "--flag"])),
        ("/usr/lib/very-long-program-name --flag".to_string(), "very-long-program-name".to_string())
    );
    assert_eq!(
        command_and_name(&long, &args(&["no-slash-here"])),
        ("no-slash-here".to_string(), "123456789012345".to_string())
    );
    assert_eq!(
        command_and_name(&long, &args(&["trailing/"])),
        ("trailing/".to_string(), "".to_string())
    );
    let fourteen = stat("12345678901234", 0, 0);
    assert_eq!(
        command_and_name(&fourteen, &args(&["/bin/other"])),
        ("/bin/other".to_string(), "12345678901234".to_string())
    );
    let wide = stat("\u{e9}\u{e9}\u{e9}\u{e9}\u{e9}\u{e9}\u{e9}\u{e9}", 0, 0);
    assert_eq!(
        command_and_name(&wide, &args(&["/opt/\u{e9}t\u{e9}"])),
        ("/opt/\u{e9}t\u{e9}".to_string(), "\u{e9}t\u{e9}".to_string())
    );
}

fn process(pid: i32, io: Option<Io>) -> Process {
    Process {
        pid,
        uid: Some(1000),
        stat: Stat {
            comm: "worker".to_string(),
            state: 'R',
            ppid: 1,
            utime: 400,
            stime: 100,
            rss_bytes: 1024,
        },
        io,
        cmdline: Some(vec!["/usr/bin/worker".to_string(), "--fast".to_string()]),
    }
}

#[test]
fn a_full_report() {
    let prev = PrevProcDetails { total_read_bytes: 1000, total_write_bytes: 300, cpu_time: 200 };
    let p = process(42, Some(Io { read_bytes: 1500, write_bytes: 250 }));
    let (harvest, ticks) =
        build_harvest(&prev, &p, &cpu(30, 50, 1), true, 5, 4096, "alice".to_string(), 100);
    assert_eq!(ticks, 500);
    assert_eq!(harvest.pid, 42);
    assert_eq!(harvest.parent_pid, Some(1));
    assert_eq!((harvest.cpu_usage_percent.num, harvest.cpu_usage_percent.den), (30_000, 30));
    assert_eq!((harvest.mem_usage_percent.num, harvest.mem_usage_percent.den), (102_400, 4096));
    assert_eq!(harvest.mem_usage_bytes, 1024);
    assert_eq!(harvest.name, "worker");
    assert_eq!(harvest.command, "/usr/bin/worker --fast");
    assert_eq!(harvest.read_bytes_per_sec, 100);
    assert_eq!(harvest.write_bytes_per_sec, 0);
    assert_eq!(harvest.total_read_bytes, 1500);
    assert_eq!(harvest.total_write_bytes, 250);
    assert_eq!(harvest.process_state, ("Runnable".to_string(), 'R'));
    assert_eq!(harvest.uid, Some(1000));
    assert_eq!(harvest.user, "alice");
    assert_eq!((harvest.time.secs, harvest.time.nanos), (5, 0));
    assert_eq!((harvest.gpu_mem, harvest.gpu_util), (0, 0));
}

#[test]
fn unreadable_io_counters_read_as_zero() {
    let prev = PrevProcDetails { total_read_bytes: 1000, total_write_bytes: 300, cpu_time: 200 };
    let p = process(42, None);
    let mut users = UserTable::new();
    let (harvest, ticks) =
        read_proc(&prev, &p, &cpu(30, 50, 1), false, 5, 4096, &mut users, &no_lookup);
    assert_eq!(harvest.read_bytes_per_sec, 0);
    assert_eq!(harvest.write_bytes_per_sec, 0);
    assert_eq!(harvest.total_read_bytes, 0);
    assert_eq!(harvest.total_write_bytes, 0);
    assert_eq!(ticks, 500);
    assert_eq!((harvest.cpu_usage_percent.num, harvest.cpu_usage_percent.den), (30_000, 50));
    assert_eq!((harvest.mem_usage_percent.num, harvest.mem_usage_percent.den), (102_400, 4096));
    assert_eq!(harvest.user, "N/A");
    assert_eq!(harvest.name, "worker");
    assert!(harvest.time.nanos < 1_000_000_000);
    assert_eq!(harvest.process_state, ("Runnable".to_string(), 'R'));
}

#[test]
fn states_in_words() {
    let prev = PrevProcDetails::default();
    let expected = [
        ('R', "Runnable"),
        ('S', "Sleeping"),
        ('I', "Idle"),
        ('D', "UninterruptibleDiskSleep"),
        ('Z', "Zombie"),
        ('T', "Stopped"),
        ('t', "Tracing"),
        ('X', "Dead"),
        ('x', "Dead"),
        ('K', "Wakekill"),
        ('W', "Waking"),
        ('P', "Parked"),
        ('?', "Unknown"),
        ('r', "Unknown"),
    ];
    for (letter, words) in expected {
        let mut p = process(1, None);
        p.stat.state = letter;
        let (harvest, _) =
            build_harvest(&prev, &p, &cpu(1, 1, 1), true, 1, 1, String::new(), 100);
        assert_eq!(harvest.process_state, (words.to_string(), letter));
    }
}

#[test]
fn default_details_are_zero() {
    let details = PrevProcDetails::default();
    assert_eq!(
        (details.total_read_bytes, details.total_write_bytes, details.cpu_time),
        (0, 0, 0)
    );
}

#[test]
fn directories_of_processes() {
    for name in ["1", "4096", " 12 ", "12\n", "\t7", "", "  "] {
        assert!(is_pid_dir(name), "{:?}", name);
        assert_eq!(is_pid_dir(name), name.trim().chars().all(|c| c.is_ascii_digit()));
    }
    for name in ["self", "1a", "1 2", "-1", "sys", "thread-self", "1.5"] {
        assert!(!is_pid_dir(name), "{:?}", name);
    }
}
