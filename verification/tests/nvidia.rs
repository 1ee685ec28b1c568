use data_harvester::nvidia::{
    convert_temperature, device_memory, device_process_table, get_nvidia_vecs, is_temp_filtered,
    CpuDataType, Filter, GpuProcessInfo, GpuProcessSample, GpuReading, TemperatureType,
};

fn reading(name: &str) -> GpuReading {
    GpuReading {
        name: name.to_string(),
        matches_filter: false,
        memory_info: Some((8000, 2000)),
        temperature: Some(60),
        utilization: Some(35),
        process_utilization: Some(vec![
            GpuProcessSample { pid: 10, sm_util: 20, enc_util: 3, dec_util: 1 },
            GpuProcessSample { pid: 11, sm_util: 5, enc_util: 0, dec_util: 0 },
        ]),
        compute_processes: Some(vec![
            GpuProcessInfo { pid: 10, used_gpu_memory: Some(4096) },
            GpuProcessInfo { pid: 12, used_gpu_memory: None },
        ]),
        graphics_processes: Some(vec![GpuProcessInfo { pid: 11, used_gpu_memory: Some(512) }]),
        power_usage: Some(75_000),
    }
}

#[test]
fn memory_of_a_device() {
    let harvest = device_memory(8000, 2000);
    assert_eq!((harvest.total_bytes, harvest.used_bytes), (8000, 2000));
    let percent = harvest.use_percent.unwrap();
    assert_eq!((percent.num, percent.den), (200_000, 8000));
    assert_eq!(percent.num as f64 / percent.den as f64, 25.0);
    assert!(device_memory(0, 5).use_percent.is_none());
}

#[test]
fn temperatures_in_each_scale() {
    let c = convert_temperature(60, &TemperatureType::Celsius);
    assert_eq!((c.num, c.den), (60, 1));
    let k = convert_temperature(60, &TemperatureType::Kelvin);
    assert_eq!((k.num, k.den), (33_315, 100));
    assert!((k.num as f64 / k.den as f64 - (60.0 + 273.15)).abs() < 1e-9);
    let f = convert_temperature(60, &TemperatureType::Fahrenheit);
    assert_eq!((f.num, f.den), (700, 5));
    assert_eq!(f.num as f64 / f.den as f64, 60.0 * 9.0 / 5.0 + 32.0);
    let top = convert_temperature(u32::MAX, &TemperatureType::Kelvin);
    assert_eq!(top.num, u32::MAX as i128 * 100 + 27315);
}

#[test]
fn which_sensors_are_shown() {
    assert!(is_temp_filtered(&None, false));
    assert!(is_temp_filtered(&None, true));
    let ignore = Some(Filter { is_list_ignored: true });
    assert!(is_temp_filtered(&ignore, false));
    assert!(!is_temp_filtered(&ignore, true));
    let only = Some(Filter { is_list_ignored: false });
    assert!(!is_temp_filtered(&only, false));
    assert!(is_temp_filtered(&only, true));
}

#[test]
fn processes_of_a_device() {
    let table = device_process_table(&reading("gpu"));
    assert_eq!(table.get(10), Some((4096, 24)));
    assert_eq!(table.get(11), Some((512, 5)));
    assert_eq!(table.get(12), Some((0, 0)));
    assert_eq!(table.get(13), None);

    let mut twice = reading("gpu");
    twice.process_utilization = Some(vec![
        GpuProcessSample { pid: 10, sm_util: 1, enc_util: 1, dec_util: 1 },
        GpuProcessSample { pid: 10, sm_util: u32::MAX, enc_util: 5, dec_util: 5 },
    ]);
    twice.compute_processes = Some(vec![
        GpuProcessInfo { pid: 10, used_gpu_memory: Some(1) },
        GpuProcessInfo { pid: 10, used_gpu_memory: Some(2) },
    ]);
    twice.graphics_processes = None;
    let table = device_process_table(&twice);
    assert_eq!(table.get(10), Some((2, u32::MAX)));

    let mut none = reading("gpu");
    none.process_utilization = None;
    none.compute_processes = None;
    none.graphics_processes = Some(vec![]);
    assert!(device_process_table(&none).is_empty());
}

#[test]
fn everything_that_is_asked_for() {
    let devices = vec![Some(reading("first")), None, Some(reading("third"))];
    let data = get_nvidia_vecs(
        &TemperatureType::Fahrenheit,
        &None,
        &devices,
        true,
        true,
        true,
        true,
        true,
    );
    let memory = data.memory.unwrap();
    assert_eq!(memory.len(), 2);
    assert_eq!(memory[0].0, "first");
    assert_eq!(memory[1].0, "third");
    assert_eq!((memory[1].1.total_bytes, memory[1].1.used_bytes), (8000, 2000));
    let temperature = data.temperature.unwrap();
    assert_eq!(temperature.len(), 2);
    assert_eq!(temperature[0].name, "first");
    assert_eq!((temperature[0].temperature.num, temperature[0].temperature.den), (700, 5));
    let usage = data.usage.unwrap();
    assert_eq!(usage.len(), 2);
    assert_eq!(usage[0].cpu_usage, 35);
    assert!(matches!(usage[0].data_type, CpuDataType::Gpu(0)));
    assert!(matches!(usage[1].data_type, CpuDataType::Gpu(2)));
    let procs = data.procs.unwrap();
    assert_eq!(procs.len(), 2);
    assert_eq!(procs[1].get(10), Some((4096, 24)));
    let battery = data.battery.unwrap();
    assert_eq!(battery, vec![("first".to_string(), 75_000), ("third".to_string(), 75_000)]);
}

#[test]
fn nothing_that_is_not_asked_for() {
    let devices = vec![Some(reading("first"))];
    let data = get_nvidia_vecs(
        &TemperatureType::Celsius,
        &None,
        &devices,
        false,
        false,
        false,
        false,
        false,
    );
    assert!(data.memory.is_none());
    assert!(data.temperature.is_none());
    assert!(data.usage.is_none());
    assert!(data.procs.is_none());
    assert!(data.battery.is_none());
    let data =
        get_nvidia_vecs(&TemperatureType::Celsius, &None, &vec![], true, true, true, true, true);
    assert!(data.memory.is_none() && data.procs.is_none() && data.usage.is_none());
    assert!(data.temperature.is_none() && data.battery.is_none());
}

#[test]
fn readings_that_failed_are_left_out() {
    let mut partial = reading("partial");
    partial.memory_info = None;
    partial.temperature = None;
    partial.utilization = None;
    partial.process_utilization = None;
    partial.compute_processes = None;
    partial.graphics_processes = None;
    partial.power_usage = None;
    let devices = vec![Some(partial), Some(reading("whole"))];
    let data =
        get_nvidia_vecs(&TemperatureType::Celsius, &None, &devices, true, true, true, true, true);
    assert_eq!(data.memory.unwrap().len(), 1);
    let temperature = data.temperature.unwrap();
    assert_eq!(temperature.len(), 1);
    assert_eq!(temperature[0].name, "whole");
    let usage = data.usage.unwrap();
    assert!(matches!(usage[0].data_type, CpuDataType::Gpu(1)));
    assert_eq!(data.procs.unwrap().len(), 1);
    assert_eq!(data.battery.unwrap(), vec![("whole".to_string(), 75_000)]);
}

#[test]
fn the_filter_decides_on_temperatures_only() {
    let mut listed = reading("listed");
    listed.matches_filter = true;
    let devices = vec![Some(listed), Some(reading("other"))];
    let ignore = Some(Filter { is_list_ignored: true });
    let data =
        get_nvidia_vecs(&TemperatureType::Kelvin, &ignore, &devices, true, true, false, false, false);
    let temperature = data.temperature.unwrap();
    assert_eq!(temperature.len(), 1);
    assert_eq!(temperature[0].name, "other");
    assert_eq!((temperature[0].temperature.num, temperature[0].temperature.den), (33_315, 100));
    assert_eq!(data.memory.unwrap().len(), 2);
    let only = Some(Filter { is_list_ignored: false });
    let data =
        get_nvidia_vecs(&TemperatureType::Kelvin, &only, &devices, true, false, false, false, false);
    let temperature = data.temperature.unwrap();
    assert_eq!(temperature.len(), 1);
    assert_eq!(temperature[0].name, "listed");
}
