//! What the GPUs of the machine report, put into the lists that the
//! harvester hands on: memory, temperature, utilisation, the processes on
//! each GPU, and power.

use crate::ratio::Ratio;
use crate::tables::GpuProcTable;
use vstd::prelude::*;

verus! {

/// The scale in which temperatures are shown.
#[derive(Debug, Clone, Copy)]
pub enum TemperatureType {
    Celsius,
    Kelvin,
    Fahrenheit,
}

/// Which sensors are shown: those whose name matches a pattern of a
/// list, or those whose name matches none.
#[derive(Debug, Clone, Copy)]
pub struct Filter {
    /// Whether the sensors on the list are the ones left out.
    pub is_list_ignored: bool,
}

/// The memory of a device, in bytes.
#[derive(Debug, Clone, Copy)]
pub struct GpuMemHarvest {
    pub total_bytes: u64,
    pub used_bytes: u64,
    /// The share in use, in percent; nothing for a device without
    /// memory.
    pub use_percent: Option<Ratio>,
}

/// The temperature of a sensor, in the scale asked for.
pub struct TempHarvest {
    pub name: String,
    pub temperature: Ratio,
}

/// What a usage figure is the usage of.
#[derive(Debug, Clone, Copy)]
pub enum CpuDataType {
    Avg,
    Cpu(usize),
    Gpu(usize),
}

/// The utilisation of a processor, in percent.
#[derive(Debug, Clone, Copy)]
pub struct CpuData {
    pub cpu_usage: u32,
    pub data_type: CpuDataType,
}

/// The utilisation of a GPU by one process, in percent of each of its
/// engines.
#[derive(Debug, Clone, Copy)]
pub struct GpuProcessSample {
    pub pid: u32,
    pub sm_util: u32,
    pub enc_util: u32,
    pub dec_util: u32,
}

/// A process that runs on a GPU, and the device memory it holds, where
/// the device tells.
#[derive(Debug, Clone, Copy)]
pub struct GpuProcessInfo {
    pub pid: u32,
    pub used_gpu_memory: Option<u64>,
}

/// What was read of one GPU. Nothing stands for a reading that failed or
/// was not asked for.
pub struct GpuReading {
    pub name: String,
    /// Whether a pattern of the temperature filter matches the name.
    pub matches_filter: bool,
    /// The memory of the device in bytes: the total, then the part in
    /// use.
    pub memory_info: Option<(u64, u64)>,
    /// The temperature of the device in degrees Celsius.
    pub temperature: Option<u32>,
    /// The utilisation of the device in percent.
    pub utilization: Option<u32>,
    pub process_utilization: Option<Vec<GpuProcessSample>>,
    pub compute_processes: Option<Vec<GpuProcessInfo>>,
    pub graphics_processes: Option<Vec<GpuProcessInfo>>,
    /// The power that the device draws, in milliwatts.
    pub power_usage: Option<u32>,
}

/// What the GPUs report; of each kind nothing where no GPU reports any.
pub struct GpusData {
    pub memory: Option<Vec<(String, GpuMemHarvest)>>,
    pub temperature: Option<Vec<TempHarvest>>,
    pub usage: Option<Vec<CpuData>>,
    pub procs: Option<Vec<GpuProcTable>>,
    pub battery: Option<Vec<(String, u32)>>,
}

/// The memory of a device of `total` bytes of which `used` are in use.
pub open spec fn gpu_memory(total: u64, used: u64) -> GpuMemHarvest {
    GpuMemHarvest {
        total_bytes: total,
        used_bytes: used,
        use_percent: if total == 0 {
            None
        } else {
            Some(Ratio { num: (used * 100) as i128, den: total as i128 })
        },
    }
}

/// Whether a sensor is shown: without a filter every sensor is; with one,
/// a sensor on the list is shown unless the list is of those left out,
/// and a sensor off the list is shown only if it is.
pub open spec fn temp_filtered(filter: Option<Filter>, matched: bool) -> bool {
    match filter {
        Some(filter) => if matched {
            !filter.is_list_ignored
        } else {
            filter.is_list_ignored
        },
        None => true,
    }
}

/// `celsius` degrees Celsius in the scale `temp_type`: as they are; in
/// kelvins, 273 and 15 hundredths more; in degrees Fahrenheit, nine fifths
/// and 32 more.
pub open spec fn converted_temperature(celsius: u32, temp_type: TemperatureType) -> Ratio {
    match temp_type {
        TemperatureType::Celsius => Ratio { num: celsius as i128, den: 1 },
        TemperatureType::Kelvin => Ratio { num: (celsius * 100 + 27315) as i128, den: 100 },
        TemperatureType::Fahrenheit => Ratio { num: (celsius * 9 + 160) as i128, den: 5 },
    }
}

/// The utilisation that a sample amounts to: that of its three engines
/// together, and no more than the largest `u32`.
pub open spec fn sample_util(sample: GpuProcessSample) -> u32 {
    sample.sm_util.saturating_add(sample.enc_util).saturating_add(sample.dec_util)
}

/// `table` with the utilisation of each of `samples` filed under its
/// process, with no memory.
pub open spec fn with_utilization(table: Map<u32, (u64, u32)>, samples: Seq<GpuProcessSample>) -> Map<
    u32,
    (u64, u32),
>
    decreases samples.len(),
{
    if samples.len() == 0 {
        table
    } else {
        with_utilization(table, samples.drop_last()).insert(
            samples.last().pid,
            (0, sample_util(samples.last())),
        )
    }
}

/// The device memory that a process holds; zero where the device does
/// not tell.
pub open spec fn info_memory(info: GpuProcessInfo) -> u64 {
    match info.used_gpu_memory {
        Some(bytes) => bytes,
        None => 0,
    }
}

/// `table` with the memory of `info` filed under its process, beside the
/// utilisation that was filed for it, or none.
pub open spec fn with_process_memory(table: Map<u32, (u64, u32)>, info: GpuProcessInfo) -> Map<
    u32,
    (u64, u32),
> {
    if table.contains_key(info.pid) {
        table.insert(info.pid, (info_memory(info), table[info.pid].1))
    } else {
        table.insert(info.pid, (info_memory(info), 0))
    }
}

/// `table` with the memory of each of `infos` filed under its process.
pub open spec fn with_memory(table: Map<u32, (u64, u32)>, infos: Seq<GpuProcessInfo>) -> Map<
    u32,
    (u64, u32),
>
    decreases infos.len(),
{
    if infos.len() == 0 {
        table
    } else {
        with_process_memory(with_memory(table, infos.drop_last()), infos.last())
    }
}

/// The samples of a list that could be read; none where it could not.
pub open spec fn samples_of(list: Option<Vec<GpuProcessSample>>) -> Seq<GpuProcessSample> {
    match list {
        Some(samples) => samples@,
        None => Seq::empty(),
    }
}

/// The processes of a list that could be read; none where it could not.
pub open spec fn infos_of(list: Option<Vec<GpuProcessInfo>>) -> Seq<GpuProcessInfo> {
    match list {
        Some(infos) => infos@,
        None => Seq::empty(),
    }
}

/// The table of the processes on one GPU: the utilisation of each, then
/// the memory of those that compute, then the memory of those that draw.
pub open spec fn device_procs(reading: GpuReading) -> Map<u32, (u64, u32)> {
    with_memory(
        with_memory(
            with_utilization(Map::empty(), samples_of(reading.process_utilization)),
            infos_of(reading.compute_processes),
        ),
        infos_of(reading.graphics_processes),
    )
}

/// The memory list of the GPUs `devices`.
pub open spec fn memory_list(devices: Seq<Option<GpuReading>>, use_mem: bool) -> Seq<
    (Seq<char>, GpuMemHarvest),
>
    decreases devices.len(),
{
    if devices.len() == 0 {
        Seq::empty()
    } else {
        let rest = memory_list(devices.drop_last(), use_mem);
        match devices.last() {
            Some(reading) => match reading.memory_info {
                Some((total, used)) => if use_mem {
                    rest.push((reading.name@, gpu_memory(total, used)))
                } else {
                    rest
                },
                None => rest,
            },
            None => rest,
        }
    }
}

/// The temperature list of the GPUs `devices`.
pub open spec fn temperature_list(
    devices: Seq<Option<GpuReading>>,
    use_temp: bool,
    temp_type: TemperatureType,
    filter: Option<Filter>,
) -> Seq<(Seq<char>, Ratio)>
    decreases devices.len(),
{
    if devices.len() == 0 {
        Seq::empty()
    } else {
        let rest = temperature_list(devices.drop_last(), use_temp, temp_type, filter);
        match devices.last() {
            Some(reading) => if use_temp && reading.temperature is Some && temp_filtered(
                filter,
                reading.matches_filter,
            ) {
                rest.push(
                    (reading.name@, converted_temperature(reading.temperature->0, temp_type)),
                )
            } else {
                rest
            },
            None => rest,
        }
    }
}

/// The utilisation list of the GPUs `devices`: each GPU is marked with
/// its place among them.
pub open spec fn usage_list(devices: Seq<Option<GpuReading>>, use_cpu: bool) -> Seq<CpuData>
    decreases devices.len(),
{
    if devices.len() == 0 {
        Seq::empty()
    } else {
        let rest = usage_list(devices.drop_last(), use_cpu);
        match devices.last() {
            Some(reading) => if use_cpu && reading.utilization is Some {
                rest.push(
                    CpuData {
                        cpu_usage: reading.utilization->0,
                        data_type: CpuDataType::Gpu((devices.len() - 1) as usize),
                    },
                )
            } else {
                rest
            },
            None => rest,
        }
    }
}

/// The process tables of the GPUs `devices`: one for each GPU that has a
/// process.
pub open spec fn procs_list(devices: Seq<Option<GpuReading>>, use_proc: bool) -> Seq<
    Map<u32, (u64, u32)>,
>
    decreases devices.len(),
{
    if devices.len() == 0 {
        Seq::empty()
    } else {
        let rest = procs_list(devices.drop_last(), use_proc);
        match devices.last() {
            Some(reading) => if use_proc && !(device_procs(reading) =~= Map::empty()) {
                rest.push(device_procs(reading))
            } else {
                rest
            },
            None => rest,
        }
    }
}

/// The power list of the GPUs `devices`.
pub open spec fn battery_list(devices: Seq<Option<GpuReading>>, use_battery: bool) -> Seq<
    (Seq<char>, u32),
>
    decreases devices.len(),
{
    if devices.len() == 0 {
        Seq::empty()
    } else {
        let rest = battery_list(devices.drop_last(), use_battery);
        match devices.last() {
            Some(reading) => if use_battery && reading.power_usage is Some {
                rest.push((reading.name@, reading.power_usage->0))
            } else {
                rest
            },
            None => rest,
        }
    }
}

/// A memory list with the names as sequences of characters.
pub open spec fn memory_view(list: Seq<(String, GpuMemHarvest)>) -> Seq<(Seq<char>, GpuMemHarvest)> {
    Seq::new(list.len(), |i: int| (list[i].0@, list[i].1))
}

/// A temperature list with the names as sequences of characters.
pub open spec fn temperature_view(list: Seq<TempHarvest>) -> Seq<(Seq<char>, Ratio)> {
    Seq::new(list.len(), |i: int| (list[i].name@, list[i].temperature))
}

/// A list of process tables as maps.
pub open spec fn procs_view(list: Seq<GpuProcTable>) -> Seq<Map<u32, (u64, u32)>> {
    Seq::new(list.len(), |i: int| list[i]@)
}

/// A power list with the names as sequences of characters.
pub open spec fn battery_view(list: Seq<(String, u32)>) -> Seq<(Seq<char>, u32)> {
    Seq::new(list.len(), |i: int| (list[i].0@, list[i].1))
}

/// The memory of a device.
pub fn device_memory(total: u64, used: u64) -> (harvest: GpuMemHarvest)
    ensures
        harvest == gpu_memory(total, used),
{
    GpuMemHarvest {
        total_bytes: total,
        used_bytes: used,
        use_percent: if total == 0 {
            None
        } else {
            Some(Ratio { num: (used as i128) * 100, den: total as i128 })
        },
    }
}

/// Whether a sensor is shown, given whether a pattern of the filter
/// matches its name.
pub fn is_temp_filtered(filter: &Option<Filter>, matched: bool) -> (shown: bool)
    ensures
        shown == temp_filtered(*filter, matched),
{
    match filter {
        Some(filter) => if matched {
            !filter.is_list_ignored
        } else {
            filter.is_list_ignored
        },
        None => true,
    }
}

/// A temperature in the scale `temp_type`.
pub fn convert_temperature(celsius: u32, temp_type: &TemperatureType) -> (temperature: Ratio)
    ensures
        temperature == converted_temperature(celsius, *temp_type),
        temperature.wf(),
{
    match temp_type {
        TemperatureType::Celsius => Ratio { num: celsius as i128, den: 1 },
        TemperatureType::Kelvin => Ratio { num: (celsius as i128) * 100 + 27315, den: 100 },
        TemperatureType::Fahrenheit => Ratio { num: (celsius as i128) * 9 + 160, den: 5 },
    }
}

/// Files the memory of each of `infos` in `procs`.
fn add_memory(procs: &mut GpuProcTable, infos: &Vec<GpuProcessInfo>)
    ensures
        final(procs)@ == with_memory(old(procs)@, infos@),
{
    let mut i: usize = 0;
    assert(infos@.take(0) =~= Seq::empty());
    while i < infos.len()
        invariant
            i <= infos.len(),
            procs@ == with_memory(old(procs)@, infos@.take(i as int)),
        decreases infos.len() - i,
    {
        proof {
            assert(infos@.take(i + 1).drop_last() =~= infos@.take(i as int));
            assert(infos@.take(i + 1).last() == infos@[i as int]);
        }
        let info = infos[i];
        let pid = info.pid;
        let gpu_mem = match info.used_gpu_memory {
            Some(val) => val,
            None => 0,
        };
        match procs.get(pid) {
            Some(prev) => {
                procs.insert(pid, (gpu_mem, prev.1));
            },
            None => {
                procs.insert(pid, (gpu_mem, 0));
            },
        }
        i += 1;
    }
    assert(infos@.take(i as int) =~= infos@);
}

/// The table of the processes on the GPU `reading`.
pub fn device_process_table(reading: &GpuReading) -> (procs: GpuProcTable)
    ensures
        procs@ == device_procs(*reading),
{
    let mut procs = GpuProcTable::new();
    match &reading.process_utilization {
        Some(gpu_procs) => {
            let mut i: usize = 0;
            assert(gpu_procs@.take(0) =~= Seq::empty());
            while i < gpu_procs.len()
                invariant
                    i <= gpu_procs.len(),
                    procs@ == with_utilization(Map::empty(), gpu_procs@.take(i as int)),
                decreases gpu_procs.len() - i,
            {
                proof {
                    assert(gpu_procs@.take(i + 1).drop_last() =~= gpu_procs@.take(i as int));
                    assert(gpu_procs@.take(i + 1).last() == gpu_procs@[i as int]);
                }
                let sample = gpu_procs[i];
                let gpu_util = sample.sm_util.saturating_add(sample.enc_util).saturating_add(
                    sample.dec_util,
                );
                procs.insert(sample.pid, (0, gpu_util));
                i += 1;
            }
            assert(gpu_procs@.take(i as int) =~= gpu_procs@);
        },
        None => {},
    }
    match &reading.compute_processes {
        Some(compute_procs) => {
            add_memory(&mut procs, compute_procs);
        },
        None => {},
    }
    match &reading.graphics_processes {
        Some(graphics_procs) => {
            add_memory(&mut procs, graphics_procs);
        },
        None => {},
    }
    procs
}

/// Whether `found` is the list `all`, given as nothing where `all` is
/// empty.
pub open spec fn listed<T>(found: Option<Seq<T>>, all: Seq<T>) -> bool {
    match found {
        Some(list) => list == all && all.len() > 0,
        None => all.len() == 0,
    }
}

impl GpusData {
    /// The memory list, with the names as sequences of characters.
    pub open spec fn memory_spec(self) -> Option<Seq<(Seq<char>, GpuMemHarvest)>> {
        match self.memory {
            Some(list) => Some(memory_view(list@)),
            None => None,
        }
    }

    /// The temperature list, with the names as sequences of characters.
    pub open spec fn temperature_spec(self) -> Option<Seq<(Seq<char>, Ratio)>> {
        match self.temperature {
            Some(list) => Some(temperature_view(list@)),
            None => None,
        }
    }

    /// The utilisation list.
    pub open spec fn usage_spec(self) -> Option<Seq<CpuData>> {
        match self.usage {
            Some(list) => Some(list@),
            None => None,
        }
    }

    /// The process tables, as maps.
    pub open spec fn procs_spec(self) -> Option<Seq<Map<u32, (u64, u32)>>> {
        match self.procs {
            Some(list) => Some(procs_view(list@)),
            None => None,
        }
    }

    /// The power list, with the names as sequences of characters.
    pub open spec fn battery_spec(self) -> Option<Seq<(Seq<char>, u32)>> {
        match self.battery {
            Some(list) => Some(battery_view(list@)),
            None => None,
        }
    }
}

/// Puts what was read of the GPUs `devices` into lists, one for each kind
/// of data that is asked for. Nothing stands for a GPU that could not be
/// read; the others keep their order. Temperatures are given in the
/// scale `temp_type`, for the GPUs that `filter` lets through.
pub fn get_nvidia_vecs(
    temp_type: &TemperatureType,
    filter: &Option<Filter>,
    devices: &Vec<Option<GpuReading>>,
    use_temp: bool,
    use_mem: bool,
    use_proc: bool,
    use_cpu: bool,
    use_battery: bool,
) -> (data: GpusData)
    ensures
        listed(data.memory_spec(), memory_list(devices@, use_mem)),
        listed(data.temperature_spec(), temperature_list(devices@, use_temp, *temp_type, *filter)),
        listed(data.usage_spec(), usage_list(devices@, use_cpu)),
        listed(data.procs_spec(), procs_list(devices@, use_proc)),
        listed(data.battery_spec(), battery_list(devices@, use_battery)),
{
    let mut temp_vec: Vec<TempHarvest> = Vec::new();
    let mut mem_vec: Vec<(String, GpuMemHarvest)> = Vec::new();
    let mut util_vec: Vec<CpuData> = Vec::new();
    let mut proc_vec: Vec<GpuProcTable> = Vec::new();
    let mut power_vec: Vec<(String, u32)> = Vec::new();

    let mut i: usize = 0;
    proof {
        assert(devices@.take(0) =~= Seq::empty());
        assert(memory_view(mem_vec@) =~= Seq::empty());
        assert(temperature_view(temp_vec@) =~= Seq::empty());
        assert(procs_view(proc_vec@) =~= Seq::empty());
        assert(battery_view(power_vec@) =~= Seq::empty());
    }
    while i < devices.len()
        invariant
            i <= devices.len(),
            memory_view(mem_vec@) == memory_list(devices@.take(i as int), use_mem),
            temperature_view(temp_vec@) == temperature_list(
                devices@.take(i as int),
                use_temp,
                *temp_type,
                *filter,
            ),
            util_vec@ == usage_list(devices@.take(i as int), use_cpu),
            procs_view(proc_vec@) == procs_list(devices@.take(i as int), use_proc),
            battery_view(power_vec@) == battery_list(devices@.take(i as int), use_battery),
        decreases devices.len() - i,
    {
        proof {
            assert(devices@.take(i + 1).drop_last() =~= devices@.take(i as int));
            assert(devices@.take(i + 1).last() == devices@[i as int]);
        }
        match &devices[i] {
            Some(device) => {
                if use_mem {
                    match device.memory_info {
                        Some((total, used)) => {
                            let ghost before = memory_view(mem_vec@);
                            let harvest = device_memory(total, used);
                            mem_vec.push((device.name.clone(), harvest));
                            assert(memory_view(mem_vec@) =~= before.push(
                                (device.name@, harvest),
                            ));
                        },
                        None => {},
                    }
                }
                if use_temp {
                    match device.temperature {
                        Some(temperature) => {
                            if is_temp_filtered(filter, device.matches_filter) {
                                let ghost before = temperature_view(temp_vec@);
                                let temperature = convert_temperature(temperature, temp_type);
                                temp_vec.push(
                                    TempHarvest { name: device.name.clone(), temperature },
                                );
                                assert(temperature_view(temp_vec@) =~= before.push(
                                    (device.name@, temperature),
                                ));
                            }
                        },
                        None => {},
                    }
                }
                if use_cpu {
                    match device.utilization {
                        Some(util) => {
                            util_vec.push(
                                CpuData { cpu_usage: util, data_type: CpuDataType::Gpu(i) },
                            );
                        },
                        None => {},
                    }
                }
                if use_proc {
                    let procs = device_process_table(device);
                    if !procs.is_empty() {
                        let ghost before = procs_view(proc_vec@);
                        proc_vec.push(procs);
                        assert(procs_view(proc_vec@) =~= before.push(procs@));
                    }
                }
                if use_battery {
                    match device.power_usage {
                        Some(power) => {
                            let ghost before = battery_view(power_vec@);
                            power_vec.push((device.name.clone(), power));
                            assert(battery_view(power_vec@) =~= before.push(
                                (device.name@, power),
                            ));
                        },
                        None => {},
                    }
                }
            },
            None => {},
        }
        i += 1;
    }
    assert(devices@.take(i as int) =~= devices@);
    GpusData {
        memory: if mem_vec.len() > 0 {
            Some(mem_vec)
        } else {
            None
        },
        temperature: if temp_vec.len() > 0 {
            Some(temp_vec)
        } else {
            None
        },
        usage: if util_vec.len() > 0 {
            Some(util_vec)
        } else {
            None
        },
        procs: if proc_vec.len() > 0 {
            Some(proc_vec)
        } else {
            None
        },
        battery: if power_vec.len() > 0 {
            Some(power_vec)
        } else {
            None
        },
    }
}

} // verus!
