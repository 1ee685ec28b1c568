//! The per-process sampling engine: what is remembered of each process
//! between two ticks, and how a new reading is measured against it.

use crate::cpu::CpuUsage;
use crate::ratio::Ratio;
use crate::text::{
    all_ascii_digits, is_numeric, rsplit_once, rsplit_once_spec, to_chars, trim, trim_spec,
};
use crate::users::{name_view, names_after_resolve, needs_lookup, resolved_name, UserTable};
use vstd::prelude::*;

verus! {

/// The identifier of a process.
pub type Pid = i32;

/// The length from which on the name that the kernel reports for a
/// process may have been cut short. A name that long is looked up in the
/// command line instead.
pub const MAX_STAT_NAME_LEN: usize = 15;

/// The cumulative counters of a process as they stood at the last tick
/// that saw it.
#[derive(Debug, Clone, Copy)]
pub struct PrevProcDetails {
    pub total_read_bytes: u64,
    pub total_write_bytes: u64,
    pub cpu_time: u64,
}

impl PrevProcDetails {
    /// The counters of a process that was never seen: all zero.
    pub open spec fn default_spec() -> PrevProcDetails {
        PrevProcDetails { total_read_bytes: 0, total_write_bytes: 0, cpu_time: 0 }
    }
}

impl Default for PrevProcDetails {
    fn default() -> (details: PrevProcDetails)
        ensures
            details == PrevProcDetails::default_spec(),
    {
        PrevProcDetails { total_read_bytes: 0, total_write_bytes: 0, cpu_time: 0 }
    }
}

/// The status of a process as the kernel reports it.
pub struct Stat {
    /// The name of the executable, possibly cut short.
    pub comm: String,
    /// The state of the process, as one letter.
    pub state: char,
    /// The parent of the process.
    pub ppid: Pid,
    /// Clock ticks spent in user mode so far.
    pub utime: u64,
    /// Clock ticks spent in kernel mode so far.
    pub stime: u64,
    /// The resident memory of the process, in bytes.
    pub rss_bytes: u64,
}

/// The bytes that a process has read and written so far.
#[derive(Debug, Clone, Copy)]
pub struct Io {
    pub read_bytes: u64,
    pub write_bytes: u64,
}

/// One process as it was read at a tick.
pub struct Process {
    pub pid: Pid,
    /// The owner, where it could be told.
    pub uid: Option<u32>,
    pub stat: Stat,
    /// The I/O counters; nothing where they could not be read, which is
    /// common for the processes of other users.
    pub io: Option<Io>,
    /// The arguments of the command line; nothing where it could not be
    /// read.
    pub cmdline: Option<Vec<String>>,
}

/// A length of CPU time: whole seconds, and the nanoseconds beyond them.
#[derive(Debug, Clone, Copy)]
pub struct CpuTime {
    pub secs: u64,
    pub nanos: u32,
}

/// What one tick reports of one process.
pub struct ProcessHarvest {
    pub pid: Pid,
    pub parent_pid: Option<Pid>,
    /// The share of the CPU that the process used in the interval, in
    /// percent.
    pub cpu_usage_percent: Ratio,
    /// The resident memory as a share of the machine's memory, in percent.
    pub mem_usage_percent: Ratio,
    pub mem_usage_bytes: u64,
    pub name: String,
    pub command: String,
    pub read_bytes_per_sec: u64,
    pub write_bytes_per_sec: u64,
    pub total_read_bytes: u64,
    pub total_write_bytes: u64,
    /// The state of the process, in words and as the kernel's letter.
    pub process_state: (String, char),
    pub uid: Option<u32>,
    /// The name of the owner, or `N/A`.
    pub user: String,
    /// The CPU time that the process has used since it started.
    pub time: CpuTime,
    /// The device memory that the process holds over all GPUs, in bytes.
    pub gpu_mem: u64,
    /// The GPU utilisation of the process over all GPUs, in percent.
    pub gpu_util: u32,
}

/// The clock ticks that a process has used so far, in user and in kernel
/// mode together. A sum that does not fit stays at the largest `u64`.
pub open spec fn proc_ticks(stat: Stat) -> u64 {
    if stat.utime + stat.stime > u64::MAX {
        u64::MAX
    } else {
        (stat.utime + stat.stime) as u64
    }
}

/// How far a counter has grown from `previous` to `current`. A counter
/// that fell back, as after a reset, has grown by nothing.
pub open spec fn counter_growth(current: u64, previous: u64) -> u64 {
    if current >= previous {
        (current - previous) as u64
    } else {
        0
    }
}

/// The CPU usage of a process whose tick count grew by `ticks_delta` in
/// the interval `cpu`, in percent.
///
/// Against the busy ticks of the machine it is `ticks_delta / (cpu_usage
/// / divisor) * 100`. Where the machine's own load is to count, that is
/// multiplied by the busy share `cpu_usage / total_delta`, which leaves
/// `ticks_delta * divisor * 100 / total_delta`, and zero for an interval
/// without ticks. An interval without busy ticks gives zero either way.
pub open spec fn cpu_percent(ticks_delta: u64, cpu: CpuUsage, use_current_cpu_total: bool) -> Ratio {
    if cpu.cpu_usage == 0 {
        Ratio::zero_spec()
    } else if use_current_cpu_total {
        Ratio { num: (ticks_delta * 100 * cpu.divisor) as i128, den: cpu.cpu_usage }
    } else if cpu.total_delta == 0 {
        Ratio::zero_spec()
    } else {
        Ratio { num: (ticks_delta * 100 * cpu.divisor) as i128, den: cpu.total_delta }
    }
}

/// The rate, in bytes per second, of a counter that went from `previous`
/// to `current` in `elapsed_seconds`, rounded down. No time elapsed gives
/// no rate.
pub open spec fn io_rate(current: u64, previous: u64, elapsed_seconds: u64) -> u64 {
    if elapsed_seconds == 0 {
        0
    } else {
        counter_growth(current, previous) / elapsed_seconds
    }
}

/// `used` as a share of `total`, in percent; zero where there is no
/// `total`.
pub open spec fn mem_percent(used: u64, total: u64) -> Ratio {
    if total == 0 {
        Ratio::zero_spec()
    } else {
        Ratio { num: (used * 100) as i128, den: total as i128 }
    }
}

/// The time that `ticks` clock ticks last where a second has
/// `clock_ticks_per_second` of them, rounded down to the nanosecond. A
/// rate of zero, or one beyond 32 bits, gives no time.
pub open spec fn cpu_time(ticks: u64, clock_ticks_per_second: u64) -> CpuTime {
    if clock_ticks_per_second == 0 || clock_ticks_per_second > u32::MAX {
        CpuTime { secs: 0, nanos: 0 }
    } else {
        CpuTime {
            secs: ticks / clock_ticks_per_second,
            nanos: ((ticks % clock_ticks_per_second) * 1_000_000_000
                / clock_ticks_per_second as int) as u32,
        }
    }
}

/// The state of a process in words, by the letter that the kernel gives
/// it.
pub open spec fn status_label(state: char) -> Seq<char> {
    if state == 'R' {
        "Runnable"@
    } else if state == 'S' {
        "Sleeping"@
    } else if state == 'I' {
        "Idle"@
    } else if state == 'D' {
        "UninterruptibleDiskSleep"@
    } else if state == 'Z' {
        "Zombie"@
    } else if state == 'T' {
        "Stopped"@
    } else if state == 't' {
        "Tracing"@
    } else if state == 'X' || state == 'x' {
        "Dead"@
    } else if state == 'K' {
        "Wakekill"@
    } else if state == 'W' {
        "Waking"@
    } else if state == 'P' {
        "Parked"@
    } else {
        "Unknown"@
    }
}

/// The arguments of a command line as sequences of characters.
pub open spec fn args_view(args: Seq<String>) -> Seq<Seq<char>> {
    Seq::new(args.len(), |i: int| args[i]@)
}

/// The command line of a process as sequences of characters, where there
/// is one.
pub open spec fn cmdline_view(cmdline: Option<Vec<String>>) -> Option<Seq<Seq<char>>> {
    match cmdline {
        Some(args) => Some(args_view(args@)),
        None => None,
    }
}

/// The arguments in one line, with a space between each two.
pub open spec fn join_args(args: Seq<Seq<char>>) -> Seq<char>
    decreases args.len(),
{
    if args.len() == 0 {
        Seq::empty()
    } else if args.len() == 1 {
        args[0]
    } else {
        join_args(args.drop_last()) + " "@ + args.last()
    }
}

/// The length of `s` in bytes, encoded as UTF-8.
pub open spec fn byte_len(s: Seq<char>) -> nat {
    vstd::utf8::encode_utf8(s).len()
}

/// The command of a process: its command line in one line; for a process
/// with an empty command line, such as a kernel thread, its name in
/// square brackets; and its name alone where the command line could not
/// be read.
pub open spec fn process_command(comm: Seq<char>, cmdline: Option<Seq<Seq<char>>>) -> Seq<char> {
    match cmdline {
        Some(args) => if args.len() == 0 {
            "["@ + comm + "]"@
        } else {
            join_args(args)
        },
        None => comm,
    }
}

/// The part of a path after its last slash, and `fallback` for a path
/// without a slash.
pub open spec fn executable_name(path: Seq<char>, fallback: Seq<char>) -> Seq<char> {
    match rsplit_once_spec(path, '/') {
        Some((_, suffix)) => suffix,
        None => fallback,
    }
}

/// The name of a process: the name that the kernel reports, unless that
/// name is long enough to have been cut short and there is a command
/// line to take the name of the executable from.
pub open spec fn process_name(comm: Seq<char>, cmdline: Option<Seq<Seq<char>>>) -> Seq<char> {
    match cmdline {
        Some(args) => if args.len() > 0 && byte_len(comm) >= MAX_STAT_NAME_LEN {
            executable_name(args[0], comm)
        } else {
            comm
        },
        None => comm,
    }
}

/// The bytes that `process` has read so far; zero where the counters
/// could not be read.
pub open spec fn total_read_bytes(process: Process) -> u64 {
    match process.io {
        Some(io) => io.read_bytes,
        None => 0,
    }
}

/// The bytes that `process` has written so far; zero where the counters
/// could not be read.
pub open spec fn total_write_bytes(process: Process) -> u64 {
    match process.io {
        Some(io) => io.write_bytes,
        None => 0,
    }
}

/// What the state table remembers of `process` once a tick has seen it:
/// the counters as they were read, whatever was remembered before.
pub open spec fn details_of(process: Process) -> PrevProcDetails {
    PrevProcDetails {
        total_read_bytes: total_read_bytes(process),
        total_write_bytes: total_write_bytes(process),
        cpu_time: proc_ticks(process.stat),
    }
}

/// The read rate of `process` since the reading `prev`. A process whose
/// counters could not be read has no rate.
pub open spec fn read_rate(process: Process, prev: PrevProcDetails, elapsed_seconds: u64) -> u64 {
    match process.io {
        Some(io) => io_rate(io.read_bytes, prev.total_read_bytes, elapsed_seconds),
        None => 0,
    }
}

/// The write rate of `process` since the reading `prev`. A process whose
/// counters could not be read has no rate.
pub open spec fn write_rate(process: Process, prev: PrevProcDetails, elapsed_seconds: u64) -> u64 {
    match process.io {
        Some(io) => io_rate(io.write_bytes, prev.total_write_bytes, elapsed_seconds),
        None => 0,
    }
}

/// Whether `harvest` is what a tick reports of `process`, given the
/// counters `prev` that were remembered of it, the interval `cpu` of the
/// machine, the seconds since the last tick, the memory of the machine,
/// the name `user` of the owner, and the clock ticks in a second. The
/// GPU fields are left at zero.
pub open spec fn harvest_of(
    harvest: ProcessHarvest,
    prev: PrevProcDetails,
    process: Process,
    cpu: CpuUsage,
    use_current_cpu_total: bool,
    elapsed_seconds: u64,
    total_memory: u64,
    user: Seq<char>,
    clock_ticks_per_second: u64,
) -> bool {
    &&& harvest.pid == process.pid
    &&& harvest.parent_pid == Some(process.stat.ppid)
    &&& harvest.cpu_usage_percent == cpu_percent(
        counter_growth(proc_ticks(process.stat), prev.cpu_time),
        cpu,
        use_current_cpu_total,
    )
    &&& harvest.mem_usage_percent == mem_percent(process.stat.rss_bytes, total_memory)
    &&& harvest.mem_usage_bytes == process.stat.rss_bytes
    &&& harvest.name@ == process_name(process.stat.comm@, cmdline_view(process.cmdline))
    &&& harvest.command@ == process_command(process.stat.comm@, cmdline_view(process.cmdline))
    &&& harvest.read_bytes_per_sec == read_rate(process, prev, elapsed_seconds)
    &&& harvest.write_bytes_per_sec == write_rate(process, prev, elapsed_seconds)
    &&& harvest.total_read_bytes == total_read_bytes(process)
    &&& harvest.total_write_bytes == total_write_bytes(process)
    &&& harvest.process_state.0@ == status_label(process.stat.state)
    &&& harvest.process_state.1 == process.stat.state
    &&& harvest.uid == process.uid
    &&& harvest.user@ == user
    &&& harvest.time == cpu_time(proc_ticks(process.stat), clock_ticks_per_second)
    &&& harvest.gpu_mem == 0
    &&& harvest.gpu_util == 0
}

/// Whether an entry of the process directory with the name `file_name`
/// is the directory of a process: whether the name, without the
/// whitespace around it, consists of decimal digits only.
pub fn is_pid_dir(file_name: &str) -> (is_pid: bool)
    ensures
        is_pid == all_ascii_digits(trim_spec(file_name@)),
{
    let chars = to_chars(file_name);
    is_numeric(trim(chars.as_slice()))
}

/// `sysinfo::ProcessStatus::from(char)`, put into words by its `Display`:
/// the name of the state that the letter stands for on Linux, and
/// `Unknown` for any other letter.
#[verifier::external_body]
fn process_status_label(state: char) -> (label: String)
    ensures
        label@ == status_label(state),
{
    sysinfo::ProcessStatus::from(state).to_string()
}

/// `rustix::param::clock_ticks_per_second`: the clock ticks that this
/// machine counts in a second. Nothing is claimed of the number.
#[verifier::external_body]
fn clock_ticks_per_second() -> u64 {
    rustix::param::clock_ticks_per_second()
}

/// Measures the ticks of a process against the interval `cpu` of the
/// machine. Returns the usage in percent, and the tick count of the
/// process, which the caller is to remember for the next tick.
pub fn get_linux_cpu_usage(
    stat: &Stat,
    cpu: &CpuUsage,
    prev_proc_times: u64,
    use_current_cpu_total: bool,
) -> (usage: (Ratio, u64))
    ensures
        usage.0 == cpu_percent(
            counter_growth(proc_ticks(*stat), prev_proc_times),
            *cpu,
            use_current_cpu_total,
        ),
        usage.0.wf(),
        usage.1 == proc_ticks(*stat),
{
    let new_proc_times = stat.utime.saturating_add(stat.stime);
    let diff = new_proc_times.saturating_sub(prev_proc_times);
    assert(diff * 100 * cpu.divisor <= 0xffff_ffff_ffff_ffff * 100 * 0xffff_ffff) by (nonlinear_arith)
        requires
            0 <= diff <= 0xffff_ffff_ffff_ffff,
            0 <= cpu.divisor <= 0xffff_ffff,
    ;
    let scaled: i128 = (diff as i128) * 100 * (cpu.divisor as i128);
    if cpu.cpu_usage == 0 {
        (Ratio::zero(), new_proc_times)
    } else if use_current_cpu_total {
        (Ratio { num: scaled, den: cpu.cpu_usage }, new_proc_times)
    } else if cpu.total_delta == 0 {
        (Ratio::zero(), new_proc_times)
    } else {
        (Ratio { num: scaled, den: cpu.total_delta }, new_proc_times)
    }
}

/// The rate of a counter, in bytes per second.
pub fn bytes_per_sec(current: u64, previous: u64, elapsed_seconds: u64) -> (rate: u64)
    ensures
        rate == io_rate(current, previous, elapsed_seconds),
{
    match current.saturating_sub(previous).checked_div(elapsed_seconds) {
        Some(rate) => rate,
        None => 0,
    }
}

/// `used` as a share of `total`, in percent.
pub fn memory_percent(used: u64, total: u64) -> (percent: Ratio)
    ensures
        percent == mem_percent(used, total),
        percent.wf(),
{
    if total == 0 {
        Ratio::zero()
    } else {
        Ratio { num: (used as i128) * 100, den: total as i128 }
    }
}

/// The time that `ticks` clock ticks last at `clock_ticks_per_second`.
pub fn cpu_time_from_ticks(ticks: u64, clock_ticks_per_second: u64) -> (time: CpuTime)
    ensures
        time == cpu_time(ticks, clock_ticks_per_second),
        time.nanos < 1_000_000_000,
{
    if clock_ticks_per_second == 0 || clock_ticks_per_second > u32::MAX as u64 {
        CpuTime { secs: 0, nanos: 0 }
    } else {
        let secs = ticks / clock_ticks_per_second;
        let carry = ticks % clock_ticks_per_second;
        assert(carry * 1_000_000_000 <= 0xffff_ffff * 1_000_000_000) by (nonlinear_arith)
            requires
                0 <= carry <= 0xffff_ffff,
        ;
        let scaled: u64 = carry * 1_000_000_000;
        assert(scaled / clock_ticks_per_second < 1_000_000_000) by (nonlinear_arith)
            requires
                scaled == carry * 1_000_000_000,
                0 <= carry < clock_ticks_per_second,
        ;
        let nanos = (scaled / clock_ticks_per_second) as u32;
        CpuTime { secs, nanos }
    }
}

/// The arguments of a command line in one line, with a space between each
/// two.
pub fn join_with_spaces(args: &Vec<String>) -> (line: String)
    ensures
        line@ == join_args(args_view(args@)),
{
    let mut line = String::new();
    let ghost all = args_view(args@);
    let mut i: usize = 0;
    while i < args.len()
        invariant
            i <= args.len(),
            all == args_view(args@),
            line@ == join_args(all.take(i as int)),
        decreases args.len() - i,
    {
        proof {
            assert(all.take(i + 1).drop_last() =~= all.take(i as int));
            assert(all.take(i + 1).last() == args@[i as int]@);
            if i == 0 {
                assert(all.take(1)[0] == args@[0]@);
                assert(Seq::<char>::empty() + args@[0]@ =~= args@[0]@);
            }
        }
        if i > 0 {
            line.append(" ");
        }
        line.append(args[i].as_str());
        i += 1;
    }
    assert(all.take(i as int) =~= all);
    line
}

/// The command and the name to show for a process with the status `stat`
/// and the command line `cmdline`, in this order.
pub fn command_and_name(stat: &Stat, cmdline: &Option<Vec<String>>) -> (shown: (String, String))
    ensures
        shown.0@ == process_command(stat.comm@, cmdline_view(*cmdline)),
        shown.1@ == process_name(stat.comm@, cmdline_view(*cmdline)),
{
    let truncated_name = stat.comm.as_str();
    match cmdline {
        Some(args) => {
            if args.len() == 0 {
                (
                    String::from_str("[").concat(truncated_name).concat("]"),
                    String::from_str(truncated_name),
                )
            } else {
                let command = join_with_spaces(args);
                let name = if truncated_name.as_bytes().len() >= MAX_STAT_NAME_LEN {
                    assert(args_view(args@)[0] == args@[0]@);
                    let first_part = args[0].as_str();
                    let chars = to_chars(first_part);
                    match rsplit_once(chars.as_slice(), '/') {
                        Some((prefix, suffix)) => {
                            proof {
                                crate::text::lemma_rfind_char(chars@, '/');
                                assert(chars@.skip(prefix.len() + 1) =~= chars@.subrange(
                                    prefix.len() + 1,
                                    chars.len() as int,
                                ));
                            }
                            String::from_str(
                                first_part.substring_char(prefix.len() + 1, chars.len()),
                            )
                        },
                        None => String::from_str(truncated_name),
                    }
                } else {
                    String::from_str(truncated_name)
                };
                (command, name)
            }
        },
        None => (String::from_str(truncated_name), String::from_str(truncated_name)),
    }
}

/// Puts together what a tick reports of `process`, given the name `user`
/// of its owner and the clock ticks that the machine counts in a second.
/// Returns the report, and the tick count of the process, which the
/// caller is to remember for the next tick.
pub fn build_harvest(
    prev_proc: &PrevProcDetails,
    process: &Process,
    cpu: &CpuUsage,
    use_current_cpu_total: bool,
    time_difference_in_secs: u64,
    total_memory: u64,
    user: String,
    clock_ticks_per_second: u64,
) -> (result: (ProcessHarvest, u64))
    ensures
        harvest_of(
            result.0,
            *prev_proc,
            *process,
            *cpu,
            use_current_cpu_total,
            time_difference_in_secs,
            total_memory,
            user@,
            clock_ticks_per_second,
        ),
        result.0.cpu_usage_percent.wf(),
        result.0.mem_usage_percent.wf(),
        result.1 == proc_ticks(process.stat),
{
    let (command, name) = command_and_name(&process.stat, &process.cmdline);
    let process_state_char = process.stat.state;
    let process_state = (process_status_label(process_state_char), process_state_char);
    let (cpu_usage_percent, new_process_times) = get_linux_cpu_usage(
        &process.stat,
        cpu,
        prev_proc.cpu_time,
        use_current_cpu_total,
    );
    let parent_pid = Some(process.stat.ppid);
    let mem_usage_bytes = process.stat.rss_bytes;
    let mem_usage_percent = memory_percent(mem_usage_bytes, total_memory);

    let (total_read_bytes, total_write_bytes, read_bytes_per_sec, write_bytes_per_sec) =
        match process.io {
        Some(io) => (
            io.read_bytes,
            io.write_bytes,
            bytes_per_sec(io.read_bytes, prev_proc.total_read_bytes, time_difference_in_secs),
            bytes_per_sec(io.write_bytes, prev_proc.total_write_bytes, time_difference_in_secs),
        ),
        None => (0, 0, 0, 0),
    };

    let time = cpu_time_from_ticks(new_process_times, clock_ticks_per_second);

    (
        ProcessHarvest {
            pid: process.pid,
            parent_pid,
            cpu_usage_percent,
            mem_usage_percent,
            mem_usage_bytes,
            name,
            command,
            read_bytes_per_sec,
            write_bytes_per_sec,
            total_read_bytes,
            total_write_bytes,
            process_state,
            uid: process.uid,
            user,
            time,
            gpu_mem: 0,
            gpu_util: 0,
        },
        new_process_times,
    )
}

/// What `read_proc` leaves behind, given what the lookup of the owner
/// gave and the clock ticks that the machine counts in a second.
pub open spec fn read_proc_outcome(
    result: (ProcessHarvest, u64),
    prev_proc: PrevProcDetails,
    process: Process,
    cpu: CpuUsage,
    use_current_cpu_total: bool,
    time_difference_in_secs: u64,
    total_memory: u64,
    names_before: Map<u32, Seq<char>>,
    names_after: Map<u32, Seq<char>>,
    outcome: Option<String>,
    clock_ticks_per_second: u64,
) -> bool {
    &&& harvest_of(
        result.0,
        prev_proc,
        process,
        cpu,
        use_current_cpu_total,
        time_difference_in_secs,
        total_memory,
        resolved_name(names_before, process.uid, name_view(outcome)),
        clock_ticks_per_second,
    )
    &&& result.1 == proc_ticks(process.stat)
    &&& names_after == names_after_resolve(names_before, process.uid, name_view(outcome))
}

/// Reports on one process: its usage of the CPU, of memory and of I/O
/// since the reading `prev_proc`, and who owns it. The owner's name is
/// taken from `user_table`, which asks `lookup` for an owner that it does
/// not hold. Nothing that fails for a single process fails the report:
/// unreadable I/O counters read as zero, an unknown owner as `N/A`.
pub fn read_proc<F: Fn(u32) -> Option<String>>(
    prev_proc: &PrevProcDetails,
    process: &Process,
    cpu: &CpuUsage,
    use_current_cpu_total: bool,
    time_difference_in_secs: u64,
    total_memory: u64,
    user_table: &mut UserTable,
    lookup: &F,
) -> (result: (ProcessHarvest, u64))
    requires
        process.uid is Some ==> call_requires(lookup, (process.uid->0,)),
    ensures
        exists|outcome: Option<String>, rate: u64|
            {
                &&& needs_lookup(old(user_table).names(), process.uid) ==> call_ensures(
                    lookup,
                    (process.uid->0,),
                    outcome,
                )
                &&& #[trigger] read_proc_outcome(
                    result,
                    *prev_proc,
                    *process,
                    *cpu,
                    use_current_cpu_total,
                    time_difference_in_secs,
                    total_memory,
                    old(user_table).names(),
                    final(user_table).names(),
                    outcome,
                    rate,
                )
            },
        result.0.cpu_usage_percent.wf(),
        result.0.mem_usage_percent.wf(),
        old(user_table).names().submap_of(final(user_table).names()),
{
    let ghost names_before = user_table.names();
    let user = user_table.resolve(process.uid, lookup);
    let ghost outcome = choose|outcome: Option<String>|
        {
            &&& needs_lookup(names_before, process.uid) ==> call_ensures(
                lookup,
                (process.uid->0,),
                outcome,
            )
            &&& user@ == resolved_name(names_before, process.uid, name_view(outcome))
            &&& user_table.names() == names_after_resolve(
                names_before,
                process.uid,
                name_view(outcome),
            )
        };
    let rate = clock_ticks_per_second();
    let result = build_harvest(
        prev_proc,
        process,
        cpu,
        use_current_cpu_total,
        time_difference_in_secs,
        total_memory,
        user,
        rate,
    );
    assert(read_proc_outcome(
        result,
        *prev_proc,
        *process,
        *cpu,
        use_current_cpu_total,
        time_difference_in_secs,
        total_memory,
        names_before,
        user_table.names(),
        outcome,
        rate,
    ));
    result
}

/// With the machine's load counted in, the usage of a process is its
/// share of the busy ticks, in percent, times the busy share of the
/// interval: the busy ticks cancel.
pub proof fn lemma_cpu_percent_is_product(ticks_delta: u64, cpu: CpuUsage)
    requires
        cpu.cpu_usage != 0,
        cpu.total_delta != 0,
    ensures
        cpu_percent(ticks_delta, cpu, false).is_quotient(
            cpu_percent(ticks_delta, cpu, true).num * cpu.cpu_fraction_spec().num,
            cpu_percent(ticks_delta, cpu, true).den * cpu.cpu_fraction_spec().den,
        ),
{
    let n = (ticks_delta * 100 * cpu.divisor) as int;
    assert(0 <= n <= 0xffff_ffff_ffff_ffff * 100 * 0xffff_ffff) by (nonlinear_arith)
        requires
            n == ticks_delta * 100 * cpu.divisor,
            0 <= ticks_delta <= 0xffff_ffff_ffff_ffff,
            0 <= cpu.divisor <= 0xffff_ffff,
    ;
    let busy = cpu.cpu_usage as int;
    let total = cpu.total_delta as int;
    assert(n * (busy * total) == (n * busy) * total) by (nonlinear_arith);
}

/// A rate is never negative; it is zero where no time has elapsed, and
/// where the counter fell back; and where the counter grew it is the
/// growth per second, rounded down.
pub proof fn lemma_io_rate(current: u64, previous: u64, elapsed_seconds: u64)
    ensures
        io_rate(current, previous, elapsed_seconds) >= 0,
        elapsed_seconds == 0 ==> io_rate(current, previous, elapsed_seconds) == 0,
        current <= previous ==> io_rate(current, previous, elapsed_seconds) == 0,
        current >= previous && elapsed_seconds > 0 ==> {
            let rate = io_rate(current, previous, elapsed_seconds);
            rate * elapsed_seconds <= current - previous < (rate + 1) * elapsed_seconds
        },
{
    if current >= previous && elapsed_seconds > 0 {
        let growth = (current - previous) as int;
        let e = elapsed_seconds as int;
        assert((growth / e) * e <= growth < (growth / e + 1) * e) by (nonlinear_arith)
            requires
                growth >= 0,
                e > 0,
        ;
    }
}

/// A process that is seen for the first time is measured against
/// counters of zero: all the ticks it has used count as the growth of
/// the interval.
pub proof fn lemma_first_sight(table: Map<Pid, PrevProcDetails>, process: Process)
    requires
        !table.contains_key(process.pid),
    ensures
        crate::tables::previous_details(table, process.pid) == PrevProcDetails::default_spec(),
        counter_growth(
            proc_ticks(process.stat),
            crate::tables::previous_details(table, process.pid).cpu_time,
        ) == proc_ticks(process.stat),
{
}

} // verus!
