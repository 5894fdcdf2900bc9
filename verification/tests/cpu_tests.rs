use statbar::cpu::{
    bar_chart, core_utilization_ratios, cpu_alert_due, cpu_usage_alert, proc_stat_fits,
    proc_stat_times, CpuTime,
};
use statbar::cpu_load::{CpuLoad, CpuStats, LoadDelta, StatError};
use statbar::alert::Urgency;

fn lines(v: &[&str]) -> Vec<String> {
    v.iter().map(|s| s.to_string()).collect()
}

#[test]
fn cpu_time_from_seven_counters() {
    let t = CpuTime::from_str("10 20 30 40 50 60 70 80 90").unwrap();
    assert_eq!(t.idle, 90);
    assert_eq!(t.non_idle, 190);
}

#[test]
fn cpu_time_tolerates_extra_whitespace() {
    let t = CpuTime::from_str("  1\t2  3 4 5 6 7\n").unwrap();
    assert_eq!(t, CpuTime { idle: 9, non_idle: 19 });
}

#[test]
fn cpu_time_needs_seven_numbers() {
    assert_eq!(CpuTime::from_str("1 2 3 4 5 6"), None);
    assert_eq!(CpuTime::from_str("1 2 x 4 5 6 7"), None);
    assert_eq!(CpuTime::from_str(""), None);
    assert_eq!(CpuTime::from_str("+1 2 3 4 5 6 7"), Some(CpuTime { idle: 9, non_idle: 19 }));
    assert_eq!(CpuTime::from_str("-1 2 3 4 5 6 7"), None);
}

#[test]
fn cpu_time_fits_detects_overflow() {
    assert!(CpuTime::fits("1 2 3 4 5 6 7"));
    assert!(!CpuTime::fits("0 0 0 18446744073709551615 1 0 0"));
    assert!(!CpuTime::fits("18446744073709551615 1 0 0 0 0 0"));
    assert!(CpuTime::fits("1 2"));
}

#[test]
fn utilization_ratio_floors_at_zero() {
    let old = CpuTime { idle: 100, non_idle: 50 };
    let new = CpuTime { idle: 130, non_idle: 120 };
    assert_eq!(new.utilization_ratio(old), (70, 100));
    assert_eq!(old.utilization_ratio(new), (0, 0));
}

#[test]
fn proc_stat_total_and_cores() {
    let ls = lines(&[
        "cpu  1 2 3 4 5 6 7 0 0 0",
        "cpu0 1 1 1 1 1 1 1 0 0 0",
        "cpu1 2 2 2 2 2 2 2 0 0 0",
        "intr 12345 0 0",
        "ctxt 99",
    ]);
    assert!(proc_stat_fits(&ls));
    let (total, cores) = proc_stat_times(&ls).unwrap();
    assert_eq!(total, CpuTime { idle: 9, non_idle: 19 });
    assert_eq!(cores, vec![CpuTime { idle: 2, non_idle: 5 }, CpuTime { idle: 4, non_idle: 10 }]);
}

#[test]
fn proc_stat_skips_unparsable_cores() {
    let ls = lines(&["cpu 1 2 3 4 5 6 7", "cpu0 1 1", "cpu1 1 1 1 1 1 1 1"]);
    let (_, cores) = proc_stat_times(&ls).unwrap();
    assert_eq!(cores.len(), 1);
}

#[test]
fn proc_stat_without_total_is_none() {
    let ls = lines(&["cpu0 1 1 1 1 1 1 1"]);
    assert_eq!(proc_stat_times(&ls), None);
    let ls = lines(&["cpu 1 2"]);
    assert_eq!(proc_stat_times(&ls), None);
}

#[test]
fn proc_stat_malformed_cpu_line_is_none() {
    let ls = lines(&["cpu 1 2 3 4 5 6 7", "cpuX"]);
    assert_eq!(proc_stat_times(&ls), None);
}

#[test]
fn proc_stat_last_total_wins() {
    let ls = lines(&["cpu 1 2 3 4 5 6 7", "cpu 1 1 1 1 1 1 1"]);
    let (total, _) = proc_stat_times(&ls).unwrap();
    assert_eq!(total, CpuTime { idle: 2, non_idle: 5 });
}

#[test]
fn core_ratios_need_same_core_count() {
    let a = vec![CpuTime { idle: 10, non_idle: 10 }];
    let b = vec![CpuTime { idle: 0, non_idle: 0 }, CpuTime { idle: 0, non_idle: 0 }];
    assert_eq!(core_utilization_ratios(&a, &b), None);
    let c = vec![CpuTime { idle: 4, non_idle: 6 }];
    assert_eq!(core_utilization_ratios(&a, &c), Some(vec![(4, 10)]));
}

#[test]
fn bar_chart_one_char_per_core() {
    assert_eq!(bar_chart(&vec![0, 3, 7, 9]), "▁▄██");
    assert_eq!(bar_chart(&vec![]), "");
    assert_eq!(bar_chart(&vec![1, 2, 4, 5, 6]), "▂▃▅▆▇");
}

#[test]
fn cpu_alert_text() {
    let a = cpu_usage_alert();
    assert_eq!(a.summary, "CPU Usage Warning");
    assert_eq!(a.body, "CPU usage exceeded 90%");
    assert_eq!(a.urgency, Urgency::Critical);
}

#[test]
fn cpu_load_reports_gains() {
    let mut load = CpuLoad::new("cpu  10 0 10 70 10 0 0\nintr 5\n").unwrap();
    let d = load.update("cpu  20 0 20 80 20 0 0\n").unwrap();
    assert_eq!(d, LoadDelta { idle_delta: 20, total_delta: 40 });
    let again = load.update("cpu  20 0 20 80 20 0 0\n").unwrap();
    assert_eq!(again, LoadDelta { idle_delta: 0, total_delta: 0 });
}

#[test]
fn cpu_load_keeps_baseline_without_progress() {
    let mut load = CpuLoad::new("cpu 10 10 10 10 10").unwrap();
    assert_eq!(load.update("cpu 10 10 10 10 10").unwrap(), LoadDelta { idle_delta: 0, total_delta: 0 });
    assert_eq!(load.update("cpu 5 5 5 5 5").unwrap(), LoadDelta { idle_delta: 0, total_delta: 0 });
    assert_eq!(load.update("cpu 10 10 10 20 10").unwrap(), LoadDelta { idle_delta: 10, total_delta: 10 });
}

#[test]
fn cpu_load_needs_a_line() {
    assert!(matches!(CpuLoad::new(""), Err(StatError::NoCpuLine)));
    let mut load = CpuLoad::new("cpu").unwrap();
    assert_eq!(load.update(""), Err(StatError::NoCpuLine));
}

#[test]
fn cpu_load_skips_words_that_are_no_numbers() {
    let mut load = CpuLoad::new("cpu 0 0 0 0 0").unwrap();
    let d = load.update("cpu 1 x 1 4 2").unwrap();
    assert_eq!(d, LoadDelta { idle_delta: 2, total_delta: 8 });
}

#[test]
fn cpu_stats_from_proc_stat() {
    assert_eq!(CpuStats::from_proc_stat(""), Err(StatError::NoCpuLine));
    assert_eq!(CpuStats::from_proc_stat("cpu 1 2 3\n"), Err(StatError::InvalidCpuStats));
    assert_eq!(
        CpuStats::from_proc_stat("cpu 10 20 30 40 50\ncpu0 1 1 1 1\n"),
        Ok(CpuStats { total: 150, idle: 40 })
    );
    assert!(CpuStats::fits("cpu 1 2 3 4"));
    assert!(!CpuStats::fits("cpu 18446744073709551615 1 0 0"));
}

#[test]
fn cpu_usage_percentage() {
    let before = CpuStats { total: 1000, idle: 800 };
    let now = CpuStats { total: 1200, idle: 850 };
    assert!(now.usage_defined_since(before));
    assert_eq!(now.usage_since(before), 75);
    assert_eq!(now.usage_since(now), 0);
    assert!(!before.usage_defined_since(now));
    let odd = CpuStats { total: 1100, idle: 950 };
    assert!(!odd.usage_defined_since(before));
}

#[test]
fn cpu_stats_log_round_trip() {
    let s = CpuStats { total: 123456, idle: 789 };
    assert_eq!(s.log_text(), "123456 789");
    assert_eq!(CpuStats::from_log_text(&s.log_text()), s);
    assert_eq!(CpuStats::from_log_text("7"), CpuStats { total: 0, idle: 0 });
    assert_eq!(CpuStats::from_log_text("x 5 9"), CpuStats { total: 0, idle: 5 });
}

#[test]
fn core_ratios_differing_counts_need_no_fit() {
    let huge = vec![CpuTime { idle: u64::MAX, non_idle: 1 }];
    let none: Vec<CpuTime> = vec![];
    assert_eq!(core_utilization_ratios(&huge, &none), None);
}

#[test]
fn cpu_alert_above_ninety_percent() {
    assert!(cpu_alert_due(91, 100));
    assert!(!cpu_alert_due(90, 100));
    assert!(!cpu_alert_due(0, 0));
    assert!(cpu_alert_due(u64::MAX, u64::MAX));
    assert!(!cpu_alert_due(5, 100));
}
