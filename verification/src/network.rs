//! Network traffic from the byte counters of `/sys/class/net`: which
//! interfaces count, their totals, the state kept between runs and the
//! speeds derived from two totals.
use vstd::prelude::*;
use crate::logfile::{pair_of, pair_text, read_pair, u64_or_zero, write_pair};
use crate::number::parse_u64_chars;
use crate::text::{chars_of, has_prefix, seqs_of, starts_with, trim, trim_chars, words, words_of};

verus! {

/// Byte counters received and sent, summed over interfaces.
#[derive(Clone, Copy, Debug, PartialEq, Eq, Structural)]
pub struct NetStats {
    pub rx_bytes: u64,
    pub tx_bytes: u64,
}

/// Seconds between two samples of the status bar.
pub const SLEEP_INTERVAL: u64 = 2;

/// Kilobits per second for a byte count gained over the sample interval.
pub open spec fn kbps(bytes: nat) -> nat {
    bytes * 8 / (SLEEP_INTERVAL as nat) / 1000
}

/// The speed since an earlier total can be computed: no counter went
/// backwards and eight times each gain fits in a `u64`.
pub open spec fn speed_defined(now: NetStats, before: NetStats) -> bool {
    &&& now.rx_bytes >= before.rx_bytes
    &&& now.tx_bytes >= before.tx_bytes
    &&& (now.rx_bytes - before.rx_bytes) * 8 <= u64::MAX
    &&& (now.tx_bytes - before.tx_bytes) * 8 <= u64::MAX
}

/// The first two words of a text read as numbers, zero where a word is
/// missing or no number.
pub open spec fn leading_pair(text: Seq<char>) -> (u64, u64) {
    let w = words(text);
    (
        if w.len() > 0 {
            u64_or_zero(w[0])
        } else {
            0
        },
        if w.len() > 1 {
            u64_or_zero(w[1])
        } else {
            0
        },
    )
}

impl NetStats {
    /// The totals kept in the state file: received, then sent.
    pub fn from_log_text(text: &str) -> (r: NetStats)
        ensures
            (r.rx_bytes, r.tx_bytes) == pair_of(text@),
    {
        let (rx_bytes, tx_bytes) = read_pair(text);
        NetStats { rx_bytes, tx_bytes }
    }

    /// The totals kept in the speed segment's log file, read word by word.
    pub fn from_leading_words(text: &str) -> (r: NetStats)
        ensures
            (r.rx_bytes, r.tx_bytes) == leading_pair(text@),
    {
        let c = chars_of(text);
        let w = words_of(&c);
        let rx = if w.len() > 0 {
            proof {
                assert(seqs_of(w@)[0] == w@[0]@);
            }
            match parse_u64_chars(&w[0]) {
                Some(v) => v,
                None => 0,
            }
        } else {
            0
        };
        let tx = if w.len() > 1 {
            proof {
                assert(seqs_of(w@)[1] == w@[1]@);
            }
            match parse_u64_chars(&w[1]) {
                Some(v) => v,
                None => 0,
            }
        } else {
            0
        };
        NetStats { rx_bytes: rx, tx_bytes: tx }
    }

    /// The text the state file is written with.
    pub fn log_text(&self) -> (r: String)
        ensures
            r@ == pair_text(self.rx_bytes, self.tx_bytes),
    {
        write_pair(self.rx_bytes, self.tx_bytes)
    }

    /// Tells whether the speed since `before` can be computed.
    pub fn speed_defined_since(&self, before: NetStats) -> (r: bool)
        ensures
            r == speed_defined(*self, before),
    {
        self.rx_bytes >= before.rx_bytes && self.tx_bytes >= before.tx_bytes && self.rx_bytes
            - before.rx_bytes <= u64::MAX / 8 && self.tx_bytes - before.tx_bytes <= u64::MAX / 8
    }

    /// Received and sent kilobits per second since the totals `before`,
    /// taken one sample interval earlier.
    pub fn speed_kbps_since(&self, before: NetStats) -> (r: (u64, u64))
        requires
            speed_defined(*self, before),
        ensures
            r.0 == kbps((self.rx_bytes - before.rx_bytes) as nat),
            r.1 == kbps((self.tx_bytes - before.tx_bytes) as nat),
    {
        let rx = (self.rx_bytes - before.rx_bytes) * 8 / SLEEP_INTERVAL / 1000;
        let tx = (self.tx_bytes - before.tx_bytes) * 8 / SLEEP_INTERVAL / 1000;
        (rx, tx)
    }

    /// Bytes received and sent since the totals `before`.
    pub fn bytes_since(&self, before: NetStats) -> (r: (u64, u64))
        requires
            self.rx_bytes >= before.rx_bytes,
            self.tx_bytes >= before.tx_bytes,
        ensures
            r.0 == self.rx_bytes - before.rx_bytes,
            r.1 == self.tx_bytes - before.tx_bytes,
    {
        (self.rx_bytes - before.rx_bytes, self.tx_bytes - before.tx_bytes)
    }

    /// Bytes received and sent since the totals `before`, zero where a
    /// counter went backwards.
    pub fn saturating_bytes_since(&self, before: NetStats) -> (r: (u64, u64))
        ensures
            r.0 == (if self.rx_bytes >= before.rx_bytes {
                self.rx_bytes - before.rx_bytes
            } else {
                0
            }),
            r.1 == (if self.tx_bytes >= before.tx_bytes {
                self.tx_bytes - before.tx_bytes
            } else {
                0
            }),
    {
        (self.rx_bytes.saturating_sub(before.rx_bytes), self.tx_bytes.saturating_sub(before.tx_bytes))
    }
}

// ---------------------------------------------------------------------------
// Interfaces and their counters
// ---------------------------------------------------------------------------

/// Which interfaces a total counts.
#[derive(Clone, Copy, Debug, PartialEq, Eq, Structural)]
pub enum InterfaceSelection {
    /// Names starting with `en`, `eth` or `wl`.
    EthernetOrWireless,
    /// Names starting with `e` or `w`.
    StartsWithEOrW,
    /// Every name that does not start with `lo`.
    AllButLoopback,
}

/// Whether an interface name is counted.
pub open spec fn iface_selected(sel: InterfaceSelection, name: Seq<char>) -> bool {
    match sel {
        InterfaceSelection::EthernetOrWireless => starts_with(name, "en"@) || starts_with(
            name,
            "eth"@,
        ) || starts_with(name, "wl"@),
        InterfaceSelection::StartsWithEOrW => starts_with(name, "e"@) || starts_with(name, "w"@),
        InterfaceSelection::AllButLoopback => !starts_with(name, "lo"@),
    }
}

/// Whether an interface name is counted.
pub fn interface_selected(sel: InterfaceSelection, name: &str) -> (r: bool)
    ensures
        r == iface_selected(sel, name@),
{
    let n = chars_of(name);
    match sel {
        InterfaceSelection::EthernetOrWireless => has_prefix(&n, &chars_of("en")) || has_prefix(
            &n,
            &chars_of("eth"),
        ) || has_prefix(&n, &chars_of("wl")),
        InterfaceSelection::StartsWithEOrW => has_prefix(&n, &chars_of("e")) || has_prefix(
            &n,
            &chars_of("w"),
        ),
        InterfaceSelection::AllButLoopback => !has_prefix(&n, &chars_of("lo")),
    }
}

/// One interface: its name and the contents of its `rx_bytes` and
/// `tx_bytes` statistics files (`None` where a file is missing or could not
/// be read).
#[derive(Clone, Debug)]
pub struct InterfaceReading {
    pub name: String,
    pub rx: Option<String>,
    pub tx: Option<String>,
}

/// The value of a counter file: its trimmed text read as a number, zero when
/// it is no number or could not be read.
pub open spec fn counter_value(t: Option<String>) -> nat {
    match t {
        Some(s) => u64_or_zero(trim(s@)) as nat,
        None => 0,
    }
}

/// Received and sent bytes summed over the selected interfaces.
pub open spec fn counter_totals_of(es: Seq<InterfaceReading>, sel: InterfaceSelection) -> (
    nat,
    nat,
)
    decreases es.len(),
{
    if es.len() == 0 {
        (0, 0)
    } else {
        let (rx, tx) = counter_totals_of(es.drop_last(), sel);
        let e = es.last();
        if iface_selected(sel, e.name@) {
            (rx + counter_value(e.rx), tx + counter_value(e.tx))
        } else {
            (rx, tx)
        }
    }
}

/// Both sums fit in a `u64`.
pub open spec fn counter_totals_fit(es: Seq<InterfaceReading>, sel: InterfaceSelection) -> bool {
    counter_totals_of(es, sel).0 <= u64::MAX && counter_totals_of(es, sel).1 <= u64::MAX
}

proof fn lemma_totals_prefix(es: Seq<InterfaceReading>, sel: InterfaceSelection, i: int)
    requires
        0 <= i <= es.len(),
    ensures
        counter_totals_of(es.take(i), sel).0 <= counter_totals_of(es, sel).0,
        counter_totals_of(es.take(i), sel).1 <= counter_totals_of(es, sel).1,
    decreases es.len() - i,
{
    if i < es.len() {
        assert(es.drop_last().take(i) =~= es.take(i));
        lemma_totals_prefix(es.drop_last(), sel, i);
    } else {
        assert(es.take(i) =~= es);
    }
}

/// The value of a counter file.
fn counter_value_of(t: &Option<String>) -> (r: u64)
    ensures
        r == counter_value(*t),
{
    match t {
        Some(s) => match parse_u64_chars(&trim_chars(&chars_of(s.as_str()))) {
            Some(v) => v,
            None => 0,
        },
        None => 0,
    }
}

/// Received and sent bytes summed over the selected interfaces, or `None`
/// when a sum does not fit in a `u64`.
fn checked_counter_totals(ifaces: &Vec<InterfaceReading>, sel: InterfaceSelection) -> (r: Option<
    NetStats,
>)
    ensures
        match r {
            Some(n) => counter_totals_of(ifaces@, sel) == (n.rx_bytes as nat, n.tx_bytes as nat),
            None => !counter_totals_fit(ifaces@, sel),
        },
{
    let mut rx: u64 = 0;
    let mut tx: u64 = 0;
    let mut i: usize = 0;
    while i < ifaces.len()
        invariant
            i <= ifaces.len(),
            counter_totals_of(ifaces@.take(i as int), sel) == (rx as nat, tx as nat),
        decreases ifaces.len() - i,
    {
        let ghost next = ifaces@.take(i + 1);
        proof {
            assert(next.drop_last() =~= ifaces@.take(i as int));
            assert(next.last() == ifaces@[i as int]);
        }
        let e = &ifaces[i];
        if interface_selected(sel, e.name.as_str()) {
            let a = counter_value_of(&e.rx);
            let b = counter_value_of(&e.tx);
            match (rx.checked_add(a), tx.checked_add(b)) {
                (Some(x), Some(y)) => {
                    rx = x;
                    tx = y;
                },
                _ => {
                    proof {
                        lemma_totals_prefix(ifaces@, sel, i + 1);
                    }
                    return None;
                },
            }
        }
        i = i + 1;
    }
    proof {
        assert(ifaces@.take(ifaces.len() as int) =~= ifaces@);
    }
    Some(NetStats { rx_bytes: rx, tx_bytes: tx })
}

/// Received and sent bytes summed over the selected interfaces.
pub fn counter_totals(ifaces: &Vec<InterfaceReading>, sel: InterfaceSelection) -> (r: NetStats)
    requires
        counter_totals_fit(ifaces@, sel),
    ensures
        counter_totals_of(ifaces@, sel) == (r.rx_bytes as nat, r.tx_bytes as nat),
{
    match checked_counter_totals(ifaces, sel) {
        Some(n) => n,
        None => NetStats { rx_bytes: 0, tx_bytes: 0 },
    }
}

/// Tells whether the sums over the selected interfaces fit in a `u64`, as
/// [`counter_totals`] needs.
pub fn counter_totals_fit_exec(ifaces: &Vec<InterfaceReading>, sel: InterfaceSelection) -> (r:
    bool)
    ensures
        r == counter_totals_fit(ifaces@, sel),
{
    checked_counter_totals(ifaces, sel).is_some()
}

} // verus!
