use statbar::alert::Urgency;
use statbar::battery::{battery_report, battery_segment_text, battery_status, BatteryInfo, SupplyReading};
use statbar::ip::{address_text, ip_from_route_json, ip_from_route_text};
use statbar::json::{first_prefsrc, string_field_of, Json};
use statbar::memory::{
    available_mb_from_first_line, available_mb_from_first_value, available_mb_from_last_value,
    memory_alert, MemoryInfo,
};
use statbar::network::{
    counter_totals, counter_totals_fit_exec, interface_selected, InterfaceReading,
    InterfaceSelection, NetStats,
};
use statbar::number::decimal_string;
use statbar::status::status_line;
use statbar::temperature::{
    coretemp_reading, degrees_from, temperature_from_sensors, temperature_text, thermal_zone_is_cpu,
    TempFile,
};

const MEMINFO: &str = "MemTotal:       16318404 kB\nMemFree:         1000000 kB\nMemAvailable:    8192000 kB\nBuffers:          100 kB\n";

#[test]
fn memory_info_reads_available() {
    let m = MemoryInfo::from_meminfo(MEMINFO);
    assert_eq!(m.available_mb(), 8000);
    assert_eq!(MemoryInfo::from_meminfo("").available_mb(), 0);
    assert_eq!(MemoryInfo::default().available_mb(), 0);
}

#[test]
fn memory_variants_differ_on_empty_label() {
    let text = "MemAvailable:\nMemAvailable: 2048 kB\nMemAvailable: 4096 kB\n";
    assert_eq!(available_mb_from_first_line(text), 0);
    assert_eq!(available_mb_from_first_value(text), 2);
    assert_eq!(available_mb_from_last_value(text), 4);
    assert_eq!(available_mb_from_last_value("MemAvailable: abc kB"), 0);
    assert_eq!(available_mb_from_first_value("MemTotal: 100 kB"), 0);
}

#[test]
fn memory_alert_below_two_gigabytes() {
    let a = memory_alert(1999).unwrap();
    assert_eq!(a.summary, "内存警告");
    assert_eq!(a.body, "可用内存：1999MB");
    assert_eq!(a.urgency, Urgency::Low);
    assert!(memory_alert(2000).is_none());
}

#[test]
fn battery_report_without_battery() {
    let r = battery_report(false, Some("50"), Some("Discharging"));
    assert_eq!(r.text, "N/A");
    assert!(r.alert.is_none());
}

#[test]
fn battery_report_critical_and_low() {
    let r = battery_report(true, Some(" 5\n"), Some("Discharging\n"));
    assert_eq!(r.text, "5%%");
    let a = r.alert.unwrap();
    assert_eq!(a.summary, "电量警报");
    assert_eq!(a.body, "剩余电量：5%");
    assert_eq!(a.urgency, Urgency::Critical);

    let r = battery_report(true, Some("12\n"), Some("Discharging\n"));
    let a = r.alert.unwrap();
    assert_eq!(a.summary, "电量提示");
    assert_eq!(a.urgency, Urgency::Low);

    let r = battery_report(true, Some("16\n"), Some("Discharging\n"));
    assert!(r.alert.is_none());
    let r = battery_report(true, Some("5\n"), Some("Charging\n"));
    assert!(r.alert.is_none());
}

#[test]
fn battery_report_full_and_unreadable() {
    assert_eq!(battery_report(true, Some("100\n"), Some("Full\n")).text, "Full");
    let r = battery_report(true, None, None);
    assert_eq!(r.text, "0%%");
    assert_eq!(battery_report(true, Some("-3"), Some("Unknown")).text, "-3%%");
}

#[test]
fn battery_info_display() {
    assert_eq!(BatteryInfo::from_readings("85\n", "Charging\n").display_text(), "85%");
    assert_eq!(BatteryInfo::from_readings("85\n", "Weird\n").display_text(), "battery error85%");
    assert_eq!(BatteryInfo::from_readings("300\n", "Full\n").display_text(), "0%");
    assert_eq!(BatteryInfo::absent().display_text(), "N/A");
    assert_eq!(BatteryInfo::default().display_text(), "0%");
}

#[test]
fn battery_status_takes_first_readings_of_batteries() {
    let entries = vec![
        SupplyReading { name: "AC".to_string(), capacity: Some("99".to_string()), status: Some("x".to_string()) },
        SupplyReading { name: "BAT0".to_string(), capacity: Some("abc".to_string()), status: Some("Discharging\n".to_string()) },
        SupplyReading { name: "BAT1".to_string(), capacity: Some("50\n".to_string()), status: Some("Charging".to_string()) },
    ];
    assert_eq!(battery_status(&entries), (Some(50), Some("Discharging".to_string())));
    assert_eq!(battery_status(&vec![]), (None, None));
}

#[test]
fn battery_segment() {
    assert_eq!(battery_segment_text(Some(50), Some("Charging")), "⚡50%");
    assert_eq!(battery_segment_text(Some(50), Some("Full")), "50%");
    assert_eq!(battery_segment_text(Some(7), None), "7%");
    assert_eq!(battery_segment_text(None, Some("Charging")), "N/A");
}

#[test]
fn interface_selections() {
    assert!(interface_selected(InterfaceSelection::EthernetOrWireless, "enp3s0"));
    assert!(interface_selected(InterfaceSelection::EthernetOrWireless, "eth0"));
    assert!(interface_selected(InterfaceSelection::EthernetOrWireless, "wlan0"));
    assert!(!interface_selected(InterfaceSelection::EthernetOrWireless, "lo"));
    assert!(!interface_selected(InterfaceSelection::EthernetOrWireless, "wwan0"));
    assert!(interface_selected(InterfaceSelection::StartsWithEOrW, "wwan0"));
    assert!(!interface_selected(InterfaceSelection::StartsWithEOrW, "docker0"));
    assert!(interface_selected(InterfaceSelection::AllButLoopback, "docker0"));
    assert!(!interface_selected(InterfaceSelection::AllButLoopback, "lo"));
}

fn iface(name: &str, rx: Option<&str>, tx: Option<&str>) -> InterfaceReading {
    InterfaceReading { name: name.to_string(), rx: rx.map(|s| s.to_string()), tx: tx.map(|s| s.to_string()) }
}

#[test]
fn counter_totals_sum_selected_interfaces() {
    let ifaces = vec![
        iface("lo", Some("1000\n"), Some("1000\n")),
        iface("eth0", Some("200\n"), Some("300\n")),
        iface("wlan0", Some("5\n"), None),
        iface("docker0", Some("7"), Some("bad")),
    ];
    assert!(counter_totals_fit_exec(&ifaces, InterfaceSelection::EthernetOrWireless));
    assert_eq!(counter_totals(&ifaces, InterfaceSelection::EthernetOrWireless), NetStats { rx_bytes: 205, tx_bytes: 300 });
    assert_eq!(counter_totals(&ifaces, InterfaceSelection::AllButLoopback), NetStats { rx_bytes: 212, tx_bytes: 300 });
    let big = vec![iface("eth0", Some("18446744073709551615"), None), iface("eth1", Some("1"), None)];
    assert!(!counter_totals_fit_exec(&big, InterfaceSelection::EthernetOrWireless));
}

#[test]
fn network_speeds() {
    let before = NetStats { rx_bytes: 1000, tx_bytes: 500 };
    let now = NetStats { rx_bytes: 3000, tx_bytes: 750 };
    assert!(now.speed_defined_since(before));
    assert_eq!(now.speed_kbps_since(before), (8, 1));
    assert_eq!(now.bytes_since(before), (2000, 250));
    assert_eq!(before.saturating_bytes_since(now), (0, 0));
    assert!(!before.speed_defined_since(now));
}

#[test]
fn net_stats_log_files() {
    let s = NetStats { rx_bytes: 42, tx_bytes: 7 };
    assert_eq!(s.log_text(), "42 7");
    assert_eq!(NetStats::from_log_text(&s.log_text()), s);
    assert_eq!(NetStats::from_leading_words(&s.log_text()), s);
    assert_eq!(NetStats::from_log_text("5"), NetStats { rx_bytes: 0, tx_bytes: 0 });
    assert_eq!(NetStats::from_leading_words("5"), NetStats { rx_bytes: 5, tx_bytes: 0 });
}

fn tf(name: &str, content: Option<&str>) -> TempFile {
    TempFile { name: name.to_string(), content: content.map(|s| s.to_string()) }
}

#[test]
fn coretemp_first_readable_input() {
    let files = vec![tf("temp1_label", Some("Package")), tf("temp1_input", None), tf("temp2_input", Some("45999\n")), tf("temp3_input", Some("80000"))];
    assert_eq!(coretemp_reading(&files), Some(Some(45)));
    assert_eq!(coretemp_reading(&vec![tf("temp1_input", Some("hot"))]), Some(None));
    assert_eq!(coretemp_reading(&vec![tf("name", Some("coretemp"))]), None);
    assert_eq!(degrees_from("-1500"), Some(-1));
}

#[test]
fn sensors_package_temperature() {
    let out = "coretemp-isa-0000\nAdapter: ISA adapter\nPackage id 0:  +45.0°C  (high = +80.0°C, crit = +100.0°C)\nCore 0:        +43.0°C\n";
    assert_eq!(temperature_from_sensors(out), Some(45));
    assert_eq!(temperature_from_sensors("Core 0: +43.0°C\n"), None);
    assert_eq!(temperature_from_sensors("Package id 0: n/a\nPackage id 0: +50.5°C\n"), Some(50));
    assert_eq!(temperature_from_sensors("Package id 0: +x.0°C\n"), None);
}

#[test]
fn temperature_segment() {
    assert_eq!(temperature_text(Some(45)), "45°");
    assert_eq!(temperature_text(Some(-2)), "-2°");
    assert_eq!(temperature_text(None), "N/A");
}

#[test]
fn thermal_zone_selection() {
    assert!(thermal_zone_is_cpu("thermal_zone0", Some("x86_pkg_temp\n")));
    assert!(thermal_zone_is_cpu("thermal_zone3", Some("cpu-thermal")));
    assert!(!thermal_zone_is_cpu("thermal_zone1", Some("acpitz\n")));
    assert!(!thermal_zone_is_cpu("thermal_zone1", None));
    assert!(!thermal_zone_is_cpu("cooling_device0", Some("cpu")));
}

#[test]
fn ip_from_text_route() {
    let out = "8.8.8.8 via 192.168.1.1 dev wlan0 src 192.168.1.23 uid 1000 \n    cache \n";
    assert_eq!(ip_from_route_text(out), "192.168.1.23");
    assert_eq!(ip_from_route_text("unreachable"), "N/A");
    assert_eq!(ip_from_route_text("x src"), "N/A");
}

#[test]
fn ip_from_json_route() {
    let out = r#"[{"dst":"8.8.8.8","gateway":"192.168.1.1","dev":"wlan0","prefsrc":"192.168.1.23","flags":[],"uid":1000,"cache":[]}]"#;
    assert_eq!(ip_from_route_json(out), "192.168.1.23");
    assert_eq!(ip_from_route_json("not json"), "N/A");
    assert_eq!(ip_from_route_json("[]"), "N/A");
    assert_eq!(ip_from_route_json(r#"[{"prefsrc": 5}]"#), "N/A");
    assert_eq!(ip_from_route_json(r#"{"prefsrc": "1.2.3.4"}"#), "N/A");
    assert_eq!(address_text(Some("10.0.0.1".to_string())), "10.0.0.1");
    assert_eq!(address_text(None), "N/A");
}

#[test]
fn status_line_layout() {
    assert_eq!(status_line(1234, 7, "45°", 12, 34, "⚡50%", "12:34"), " 1234 7% 45° ↑12K ↓34K ⚡50% 12:34 ");
}

#[test]
fn decimal_strings() {
    assert_eq!(decimal_string(0), "0");
    assert_eq!(decimal_string(1024), "1024");
    assert_eq!(decimal_string(u64::MAX), "18446744073709551615");
}

#[test]
fn json_first_prefsrc_picks_first_route() {
    let route = |p: &str| Json::Object(vec![
        ("dev".to_string(), Json::Str("wlan0".to_string())),
        ("prefsrc".to_string(), Json::Str(p.to_string())),
    ]);
    let v = Json::Array(vec![route("10.0.0.2"), route("10.0.0.3")]);
    assert_eq!(first_prefsrc(&v), Some("10.0.0.2".to_string()));
    assert_eq!(first_prefsrc(&Json::Array(vec![])), None);
    assert_eq!(first_prefsrc(&route("10.0.0.2")), None);
    let numeric = Json::Array(vec![Json::Object(vec![("prefsrc".to_string(), Json::Number("5".to_string()))])]);
    assert_eq!(first_prefsrc(&numeric), None);
    assert_eq!(string_field_of(&route("1.2.3.4"), "dev"), Some("wlan0".to_string()));
    assert_eq!(string_field_of(&route("1.2.3.4"), "gateway"), None);
}

#[test]
fn ip_from_json_uses_first_route_only() {
    let out = r#"[{"dev":"eth0"},{"prefsrc":"192.168.1.23"}]"#;
    assert_eq!(ip_from_route_json(out), "N/A");
    let out = r#"[{"prefsrc":"10.1.2.3","dev":"eth0"},{"prefsrc":"192.168.1.23"}]"#;
    assert_eq!(ip_from_route_json(out), "10.1.2.3");
}
