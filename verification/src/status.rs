//! The line the status bar prints every sample.
use vstd::prelude::*;
use crate::number::{decimal, push_decimal};
use crate::text::{append_str, string_of};

verus! {

/// The status line: memory in MiB, CPU usage, temperature, upload and
/// download speed in kbit/s, battery and time, each after a space, with a
/// space at the end.
pub open spec fn status_line_of(
    mem_mb: u64,
    cpu_percent: u8,
    temperature: Seq<char>,
    tx_kbps: u64,
    rx_kbps: u64,
    battery: Seq<char>,
    time: Seq<char>,
) -> Seq<char> {
    " "@ + decimal(mem_mb as nat) + " "@ + decimal(cpu_percent as nat) + "% "@ + temperature
        + " ↑"@ + decimal(tx_kbps as nat) + "K ↓"@ + decimal(rx_kbps as nat) + "K "@ + battery
        + " "@ + time + " "@
}

/// The status line for one sample.
pub fn status_line(
    mem_mb: u64,
    cpu_percent: u8,
    temperature: &str,
    tx_kbps: u64,
    rx_kbps: u64,
    battery: &str,
    time: &str,
) -> (r: String)
    ensures
        r@ == status_line_of(mem_mb, cpu_percent, temperature@, tx_kbps, rx_kbps, battery@, time@),
{
    let mut out: Vec<char> = Vec::new();
    append_str(&mut out, " ");
    push_decimal(&mut out, mem_mb);
    append_str(&mut out, " ");
    push_decimal(&mut out, cpu_percent as u64);
    append_str(&mut out, "% ");
    append_str(&mut out, temperature);
    append_str(&mut out, " ↑");
    push_decimal(&mut out, tx_kbps);
    append_str(&mut out, "K ↓");
    push_decimal(&mut out, rx_kbps);
    append_str(&mut out, "K ");
    append_str(&mut out, battery);
    append_str(&mut out, " ");
    append_str(&mut out, time);
    append_str(&mut out, " ");
    proof {
        assert(out@ =~= status_line_of(
            mem_mb,
            cpu_percent,
            temperature@,
            tx_kbps,
            rx_kbps,
            battery@,
            time@,
        ));
    }
    string_of(&out)
}

} // verus!
