use data_harvester::cpu::{cpu_usage_calculation, fetch_cpu_usage, CpuUsage};

fn as_floats(ticks: (u64, u64)) -> (f64, f64) {
    (ticks.0 as f64, ticks.1 as f64)
}

#[test]
fn test_proc_cpu_parse() {
    assert_eq!(
        (100_f64, 200_f64),
        as_floats(fetch_cpu_usage("100 0 100 100")),
        "Failed to properly calculate idle/non-idle for /proc/stat CPU with 4 values"
    );
    assert_eq!(
        (120_f64, 200_f64),
        as_floats(fetch_cpu_usage("100 0 100 100 20")),
        "Failed to properly calculate idle/non-idle for /proc/stat CPU with 5 values"
    );
    assert_eq!(
        (120_f64, 230_f64),
        as_floats(fetch_cpu_usage("100 0 100 100 20 30")),
        "Failed to properly calculate idle/non-idle for /proc/stat CPU with 6 values"
    );
    assert_eq!(
        (120_f64, 270_f64),
        as_floats(fetch_cpu_usage("100 0 100 100 20 30 40")),
        "Failed to properly calculate idle/non-idle for /proc/stat CPU with 7 values"
    );
    assert_eq!(
        (120_f64, 320_f64),
        as_floats(fetch_cpu_usage("100 0 100 100 20 30 40 50")),
        "Failed to properly calculate idle/non-idle for /proc/stat CPU with 8 values"
    );
    assert_eq!(
        (120_f64, 320_f64),
        as_floats(fetch_cpu_usage("100 0 100 100 20 30 40 50 100")),
        "Failed to properly calculate idle/non-idle for /proc/stat CPU with 9 values"
    );
    assert_eq!(
        (120_f64, 320_f64),
        as_floats(fetch_cpu_usage("100 0 100 100 20 30 40 50 100 200")),
        "Failed to properly calculate idle/non-idle for /proc/stat CPU with 10 values"
    );
}

#[test]
fn busy_share_of_an_interval() {
    let mut prev_idle: u64 = 100;
    let mut prev_non_idle: u64 = 200;
    let usage = cpu_usage_calculation(&mut prev_idle, &mut prev_non_idle, "230 0 0 120");
    assert_eq!(usage.total_delta, 50);
    assert_eq!(usage.cpu_usage, 30);
    assert_eq!(usage.divisor, 1);
    let fraction = usage.cpu_fraction();
    assert_eq!((fraction.num, fraction.den), (30, 50));
    assert_eq!(fraction.num as f64 / fraction.den as f64, 0.6);
    assert_eq!((prev_idle, prev_non_idle), (120, 230));
}

#[test]
fn same_reading_twice_has_no_busy_share() {
    let mut prev_idle: u64 = 0;
    let mut prev_non_idle: u64 = 0;
    cpu_usage_calculation(&mut prev_idle, &mut prev_non_idle, "10 20 30 40 50 60 70 80");
    let usage = cpu_usage_calculation(&mut prev_idle, &mut prev_non_idle, "10 20 30 40 50 60 70 80");
    assert_eq!(usage.total_delta, 0);
    assert_eq!(usage.cpu_usage, 1);
    let fraction = usage.cpu_fraction();
    assert_eq!((fraction.num, fraction.den), (0, 1));
}

#[test]
fn counters_that_fell_back_give_a_negative_interval() {
    let usage = CpuUsage::between(500, 900, 100, 300);
    assert_eq!(usage.total_delta, -1000);
    assert_eq!(usage.cpu_usage, -600);
}
