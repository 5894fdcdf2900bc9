//! Battery charge and status from the files of `/sys/class/power_supply`.
use vstd::prelude::*;
use crate::alert::{Alert, Urgency};
use crate::number::{
    decimal, parse_i32, parse_i32_chars, parse_u8, parse_u8_chars, push_decimal,
    push_signed_decimal, signed_decimal,
};
use crate::text::{
    append_str, chars_of, has_prefix, opt_str_view, opt_string_view, same_chars, starts_with,
    string_of, trim, trim_chars,
};

verus! {

// ---------------------------------------------------------------------------
// The battery segment with its notifications
// ---------------------------------------------------------------------------

/// The charge that the capacity file gives: its trimmed text read as an
/// `i32`, zero when it is no number or could not be read.
pub open spec fn charge_of(capacity: Option<Seq<char>>) -> i32 {
    match capacity {
        Some(t) => match parse_i32(trim(t)) {
            Some(v) => v,
            None => 0,
        },
        None => 0,
    }
}

/// The status that the status file gives: its trimmed text, empty when it
/// could not be read.
pub open spec fn status_of(status: Option<Seq<char>>) -> Seq<char> {
    match status {
        Some(t) => trim(t),
        None => Seq::empty(),
    }
}

/// The body of a low-battery notification.
pub open spec fn low_battery_body(charge: i32) -> Seq<char> {
    "剩余电量："@ + signed_decimal(charge as int) + "%"@
}

/// The battery segment's text: `Full` when the battery is full, else the
/// charge followed by `%%`.
pub open spec fn battery_text(charge: i32, status: Seq<char>) -> Seq<char> {
    if status == "Full"@ {
        "Full"@
    } else {
        signed_decimal(charge as int) + "%%"@
    }
}

/// The battery segment and the notification it calls for.
#[derive(Clone, Debug)]
pub struct BatteryReport {
    pub text: String,
    pub alert: Option<Alert>,
}

/// The battery segment for a battery that is `present` with the given
/// capacity and status file contents (`None` where a file could not be read):
/// `N/A` without a battery; while discharging, a critical notification at 6%
/// or less and a low-urgency one at 15% or less.
pub fn battery_report(present: bool, capacity: Option<&str>, status: Option<&str>) -> (r:
    BatteryReport)
    ensures
        !present ==> r.text@ == "N/A"@ && r.alert is None,
        present ==> ({
            let charge = charge_of(opt_str_view(capacity));
            let st = status_of(opt_str_view(status));
            let low = st == "Discharging"@ && charge <= 15;
            &&& r.text@ == battery_text(charge, st)
            &&& (r.alert is Some <==> low)
            &&& r.alert matches Some(a) ==> {
                &&& a.body@ == low_battery_body(charge)
                &&& charge <= 6 ==> a.summary@ == "电量警报"@ && a.urgency == Urgency::Critical
                &&& charge > 6 ==> a.summary@ == "电量提示"@ && a.urgency == Urgency::Low
            }
        }),
{
    if !present {
        return BatteryReport { text: string_of(&chars_of("N/A")), alert: None };
    }
    let charge: i32 = match capacity {
        Some(t) => {
            let c = chars_of(t);
            match parse_i32_chars(&trim_chars(&c)) {
                Some(v) => v,
                None => 0,
            }
        },
        None => 0,
    };
    let st: Vec<char> = match status {
        Some(t) => {
            let c = chars_of(t);
            trim_chars(&c)
        },
        None => Vec::new(),
    };
    proof {
        assert(charge == charge_of(opt_str_view(capacity)));
        assert(st@ == status_of(opt_str_view(status)));
    }
    let discharging = same_chars(&st, &chars_of("Discharging"));
    let alert = if discharging && charge <= 15 {
        let mut body: Vec<char> = Vec::new();
        append_str(&mut body, "剩余电量：");
        push_signed_decimal(&mut body, charge as i64);
        append_str(&mut body, "%");
        proof {
            assert(body@ =~= low_battery_body(charge));
        }
        if charge <= 6 {
            Some(
                Alert {
                    summary: string_of(&chars_of("电量警报")),
                    body: string_of(&body),
                    urgency: Urgency::Critical,
                },
            )
        } else {
            Some(
                Alert {
                    summary: string_of(&chars_of("电量提示")),
                    body: string_of(&body),
                    urgency: Urgency::Low,
                },
            )
        }
    } else {
        None
    };
    let text = if same_chars(&st, &chars_of("Full")) {
        string_of(&chars_of("Full"))
    } else {
        let mut t: Vec<char> = Vec::new();
        push_signed_decimal(&mut t, charge as i64);
        append_str(&mut t, "%%");
        proof {
            assert(t@ =~= signed_decimal(charge as int) + "%%"@);
        }
        string_of(&t)
    };
    BatteryReport { text, alert }
}

// ---------------------------------------------------------------------------
// Battery state of the status-bar modules
// ---------------------------------------------------------------------------

/// The status indicator for a status file's trimmed text: empty for a known
/// state (charging, discharging, full), an error text for anything else.
pub open spec fn status_indicator(t: Seq<char>) -> Seq<char> {
    if t == "Charging"@ || t == "Discharging"@ || t == "Full"@ {
        Seq::empty()
    } else {
        "battery error"@
    }
}

/// Battery charge in percent and its status indicator (`N/A` when there is
/// no battery).
#[derive(Clone, Debug)]
pub struct BatteryInfo {
    capacity: u8,
    status: String,
}

impl View for BatteryInfo {
    type V = (u8, Seq<char>);

    closed spec fn view(&self) -> (u8, Seq<char>) {
        (self.capacity, self.status@)
    }
}

impl Default for BatteryInfo {
    fn default() -> (r: BatteryInfo)
        ensures
            r@ == (0u8, Seq::<char>::empty()),
    {
        BatteryInfo { capacity: 0, status: String::new() }
    }
}

/// The text shown for a battery: `N/A` when there is none, else the status
/// indicator, the charge and `%`.
pub open spec fn battery_info_text(b: (u8, Seq<char>)) -> Seq<char> {
    if b.1 == "N/A"@ {
        "N/A"@
    } else {
        b.1 + decimal(b.0 as nat) + "%"@
    }
}

impl BatteryInfo {
    /// The state when there is no battery.
    pub fn absent() -> (r: BatteryInfo)
        ensures
            r@ == (0u8, "N/A"@),
    {
        BatteryInfo { capacity: 0, status: string_of(&chars_of("N/A")) }
    }

    /// The state from the contents of the capacity and status files: the
    /// trimmed capacity read as a `u8` (zero when it is no number) and the
    /// indicator for the trimmed status.
    pub fn from_readings(capacity: &str, status: &str) -> (r: BatteryInfo)
        ensures
            r@ == (
                match parse_u8(trim(capacity@)) {
                    Some(v) => v,
                    None => 0u8,
                },
                status_indicator(trim(status@)),
            ),
    {
        let cap = match parse_u8_chars(&trim_chars(&chars_of(capacity))) {
            Some(v) => v,
            None => 0,
        };
        let t = trim_chars(&chars_of(status));
        let known = same_chars(&t, &chars_of("Charging")) || same_chars(&t, &chars_of("Discharging"))
            || same_chars(&t, &chars_of("Full"));
        let indicator = if known {
            String::new()
        } else {
            string_of(&chars_of("battery error"))
        };
        BatteryInfo { capacity: cap, status: indicator }
    }

    /// The text shown for the battery.
    pub fn display_text(&self) -> (r: String)
        ensures
            r@ == battery_info_text(self@),
    {
        let st = chars_of(self.status.as_str());
        if same_chars(&st, &chars_of("N/A")) {
            return string_of(&chars_of("N/A"));
        }
        let mut t: Vec<char> = st;
        push_decimal(&mut t, self.capacity as u64);
        append_str(&mut t, "%");
        proof {
            assert(t@ =~= battery_info_text(self@));
        }
        string_of(&t)
    }
}

// ---------------------------------------------------------------------------
// Battery segment of the status bar
// ---------------------------------------------------------------------------

/// One entry of `/sys/class/power_supply`: its name and the contents of its
/// capacity and status files (`None` where a file could not be read).
#[derive(Clone, Debug)]
pub struct SupplyReading {
    pub name: String,
    pub capacity: Option<String>,
    pub status: Option<String>,
}

/// Capacity and status gathered from the entries read so far: from the
/// `BAT` entries in order, the first capacity that reads as a `u8` and the
/// first status file that could be read, trimmed.
pub open spec fn battery_scan(es: Seq<SupplyReading>) -> (Option<u8>, Option<Seq<char>>)
    decreases es.len(),
{
    if es.len() == 0 {
        (None, None)
    } else {
        let (c, s) = battery_scan(es.drop_last());
        let e = es.last();
        if starts_with(e.name@, "BAT"@) {
            let c2 = if c is None {
                match e.capacity {
                    Some(t) => parse_u8(trim(t@)),
                    None => None,
                }
            } else {
                c
            };
            let s2 = if s is None {
                match e.status {
                    Some(t) => Some(trim(t@)),
                    None => None,
                }
            } else {
                s
            };
            (c2, s2)
        } else {
            (c, s)
        }
    }
}

/// Capacity and status of the batteries among the power supply entries.
pub fn battery_status(entries: &Vec<SupplyReading>) -> (r: (Option<u8>, Option<String>))
    ensures
        r.0 == battery_scan(entries@).0,
        opt_string_view(r.1) == battery_scan(entries@).1,
{
    let mut capacity: Option<u8> = None;
    let mut status: Option<Vec<char>> = None;
    let bat = chars_of("BAT");
    let mut i: usize = 0;
    while i < entries.len()
        invariant
            bat@ == "BAT"@,
            i <= entries.len(),
            capacity == battery_scan(entries@.take(i as int)).0,
            match status {
                Some(t) => battery_scan(entries@.take(i as int)).1 == Some(t@),
                None => battery_scan(entries@.take(i as int)).1 is None,
            },
        decreases entries.len() - i,
    {
        proof {
            assert(entries@.take(i + 1).drop_last() =~= entries@.take(i as int));
            assert(entries@.take(i + 1).last() == entries@[i as int]);
        }
        let e = &entries[i];
        if has_prefix(&chars_of(e.name.as_str()), &bat) {
            if capacity.is_none() {
                match &e.capacity {
                    Some(t) => {
                        capacity = parse_u8_chars(&trim_chars(&chars_of(t.as_str())));
                    },
                    None => {},
                }
            }
            if status.is_none() {
                match &e.status {
                    Some(t) => {
                        status = Some(trim_chars(&chars_of(t.as_str())));
                    },
                    None => {},
                }
            }
        }
        i = i + 1;
    }
    proof {
        assert(entries@.take(entries.len() as int) =~= entries@);
    }
    match status {
        Some(t) => (capacity, Some(string_of(&t))),
        None => (capacity, None),
    }
}

/// The battery segment of the status bar: the charge and `%`, with a
/// lightning sign in front while charging; `N/A` when the capacity is
/// unknown.
pub open spec fn battery_segment(capacity: Option<u8>, status: Option<Seq<char>>) -> Seq<char> {
    match capacity {
        Some(c) => if status == Some("Charging"@) {
            "⚡"@ + decimal(c as nat) + "%"@
        } else {
            decimal(c as nat) + "%"@
        },
        None => "N/A"@,
    }
}

/// The battery segment of the status bar.
pub fn battery_segment_text(capacity: Option<u8>, status: Option<&str>) -> (r: String)
    ensures
        r@ == battery_segment(capacity, opt_str_view(status)),
{
    match capacity {
        Some(c) => {
            let charging = match status {
                Some(t) => same_chars(&chars_of(t), &chars_of("Charging")),
                None => false,
            };
            let mut out: Vec<char> = Vec::new();
            if charging {
                append_str(&mut out, "⚡");
            }
            push_decimal(&mut out, c as u64);
            append_str(&mut out, "%");
            proof {
                assert(out@ =~= battery_segment(capacity, opt_str_view(status)));
            }
            string_of(&out)
        },
        None => string_of(&chars_of("N/A")),
    }
}

} // verus!
