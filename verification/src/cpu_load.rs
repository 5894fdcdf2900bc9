//! Overall CPU load from the first line of `/proc/stat`: the numbers on it,
//! the running baseline that turns two readings into a load, and the
//! integer usage percentage kept between runs of the status bar.
use vstd::prelude::*;
use crate::logfile::{pair_of, pair_text, read_pair, write_pair};
use crate::number::{parse_u64, parse_u64_chars};
use crate::text::{chars_of, lines, lines_of, seqs_of, words, words_of};

verus! {

broadcast use vstd::seq_lib::group_seq_properties;

/// A word read as a `u64`, if it is one.
pub open spec fn number_of_word() -> spec_fn(Seq<char>) -> Option<u64> {
    |w: Seq<char>| parse_u64(w)
}

/// The words of a line after its first (the `cpu` label).
pub open spec fn words_after_label(line: Seq<char>) -> Seq<Seq<char>> {
    let w = words(line);
    if w.len() > 0 {
        w.drop_first()
    } else {
        Seq::empty()
    }
}

/// The numbers on a `/proc/stat` line: the words after its label that read
/// as `u64`, in order; the others are skipped.
pub open spec fn stat_values(line: Seq<char>) -> Seq<u64> {
    words_after_label(line).filter_map(number_of_word())
}

/// The sum of a sequence of numbers.
pub open spec fn seq_sum(v: Seq<u64>) -> nat
    decreases v.len(),
{
    if v.len() == 0 {
        0
    } else {
        seq_sum(v.drop_last()) + (v.last() as nat)
    }
}

/// `v[i]`, or zero when `v` is shorter.
pub open spec fn value_at(v: Seq<u64>, i: int) -> nat {
    if 0 <= i < v.len() {
        v[i] as nat
    } else {
        0
    }
}

/// The numbers on the first line of `s`, if `s` has a line.
pub open spec fn first_line_values(s: Seq<char>) -> Option<Seq<u64>> {
    if lines(s).len() > 0 {
        Some(stat_values(lines(s)[0]))
    } else {
        None
    }
}

/// Idle time (the fourth and fifth numbers, zero where missing) and total
/// time (the sum of all numbers) of the first line.
pub open spec fn stat_idle_total(s: Seq<char>) -> Option<(nat, nat)> {
    match first_line_values(s) {
        Some(v) => Some((value_at(v, 3) + value_at(v, 4), seq_sum(v))),
        None => None,
    }
}

/// Idle and total time of the first line fit in a `u64`.
pub open spec fn stat_fits(s: Seq<char>) -> bool {
    match stat_idle_total(s) {
        Some((i, t)) => i <= u64::MAX && t <= u64::MAX,
        None => true,
    }
}

/// Why `/proc/stat` gave no reading.
#[derive(Clone, Copy, Debug, PartialEq, Eq, Structural)]
pub enum StatError {
    /// The text has no line at all.
    NoCpuLine,
    /// The first line has fewer than four numbers.
    InvalidCpuStats,
}

proof fn lemma_seq_sum_prefix(v: Seq<u64>, i: int)
    requires
        0 <= i <= v.len(),
    ensures
        seq_sum(v.take(i)) <= seq_sum(v),
    decreases v.len() - i,
{
    if i < v.len() {
        assert(v.drop_last().take(i) =~= v.take(i));
        lemma_seq_sum_prefix(v.drop_last(), i);
    } else {
        assert(v.take(i) =~= v);
    }
}

/// The numbers on a `/proc/stat` line.
pub fn stat_values_of(line: &Vec<char>) -> (r: Vec<u64>)
    ensures
        r@ == stat_values(line@),
{
    let w = words_of(line);
    let ghost ws = seqs_of(w@);
    let mut r: Vec<u64> = Vec::new();
    if w.len() == 0 {
        return r;
    }
    let ghost rest = ws.drop_first();
    let mut j: usize = 1;
    proof {
        assert(rest.take(0) =~= Seq::<Seq<char>>::empty());
    }
    while j < w.len()
        invariant
            ws == seqs_of(w@),
            ws == words(line@),
            ws.len() > 0,
            rest == ws.drop_first(),
            1 <= j <= w.len(),
            r@ == rest.take(j - 1).filter_map(number_of_word()),
        decreases w.len() - j,
    {
        let ghost k = j - 1;
        proof {
            assert(rest.take(k + 1).drop_last() =~= rest.take(k));
            assert(rest.take(k + 1).last() == w@[j as int]@);
        }
        match parse_u64_chars(&w[j]) {
            Some(v) => {
                r.push(v);
                proof {
                    assert(r@ =~= rest.take(k).filter_map(number_of_word()) + seq![v]);
                }
            },
            None => {},
        }
        j = j + 1;
    }
    proof {
        assert(rest.take(w.len() - 1) =~= rest);
    }
    r
}

/// The numbers on the first line of `s`, if `s` has a line.
pub fn first_line_values_of(s: &str) -> (r: Option<Vec<u64>>)
    ensures
        match r {
            Some(v) => first_line_values(s@) == Some(v@),
            None => first_line_values(s@) is None,
        },
{
    let c = chars_of(s);
    let ls = lines_of(&c);
    if ls.len() == 0 {
        return None;
    }
    proof {
        assert(seqs_of(ls@)[0] == ls@[0]@);
    }
    Some(stat_values_of(&ls[0]))
}

/// The sum of some numbers, if it fits in a `u64`.
pub fn checked_sum(v: &Vec<u64>) -> (r: Option<u64>)
    ensures
        match r {
            Some(t) => t == seq_sum(v@),
            None => seq_sum(v@) > u64::MAX,
        },
{
    let mut t: u64 = 0;
    let mut i: usize = 0;
    while i < v.len()
        invariant
            i <= v.len(),
            t == seq_sum(v@.take(i as int)),
        decreases v.len() - i,
    {
        proof {
            assert(v@.take(i + 1).drop_last() =~= v@.take(i as int));
        }
        match t.checked_add(v[i]) {
            Some(u) => {
                t = u;
            },
            None => {
                proof {
                    lemma_seq_sum_prefix(v@, i + 1);
                }
                return None;
            },
        }
        i = i + 1;
    }
    proof {
        assert(v@.take(v.len() as int) =~= v@);
    }
    Some(t)
}

/// Idle and total time of the first line of `/proc/stat`, if it has one.
fn stat_idle_total_of(s: &str) -> (r: Option<(u64, u64)>)
    requires
        stat_fits(s@),
    ensures
        match r {
            Some((i, t)) => stat_idle_total(s@) == Some((i as nat, t as nat)),
            None => stat_idle_total(s@) is None,
        },
{
    match first_line_values_of(s) {
        None => None,
        Some(v) => {
            let a: u64 = if v.len() > 3 {
                v[3]
            } else {
                0
            };
            let b: u64 = if v.len() > 4 {
                v[4]
            } else {
                0
            };
            let idle = a + b;
            match checked_sum(&v) {
                Some(total) => Some((idle, total)),
                None => None,
            }
        },
    }
}

/// Tells whether idle and total time of the first line fit in a `u64`, as
/// the readers of `/proc/stat` need.
pub fn stat_fits_exec(s: &str) -> (r: bool)
    ensures
        r == stat_fits(s@),
{
    match first_line_values_of(s) {
        None => true,
        Some(v) => {
            let a: u64 = if v.len() > 3 {
                v[3]
            } else {
                0
            };
            let b: u64 = if v.len() > 4 {
                v[4]
            } else {
                0
            };
            let idle_fits = a <= u64::MAX - b;
            match checked_sum(&v) {
                Some(_) => idle_fits,
                None => false,
            }
        },
    }
}

/// The baseline of a load meter: idle and total time of the last reading
/// that counted.
#[derive(Clone)]
pub struct CpuLoad {
    prev_idle: u64,
    prev_total: u64,
}

impl View for CpuLoad {
    type V = (u64, u64);

    closed spec fn view(&self) -> (u64, u64) {
        (self.prev_idle, self.prev_total)
    }
}

/// The change between a load meter's baseline and a new reading: idle time
/// and total time gained, each floored at zero. A zero total stands for no
/// load.
#[derive(Clone, Copy, Debug, PartialEq, Eq, Structural)]
pub struct LoadDelta {
    pub idle_delta: u64,
    pub total_delta: u64,
}

/// `a - b`, or zero when `b` is the larger.
pub open spec fn gain(a: nat, b: u64) -> nat {
    if a >= b {
        (a - b) as nat
    } else {
        0
    }
}

/// One step of a load meter with baseline `base` on a reading of idle and
/// total time (`None` when there was no line): what it reports and its new
/// baseline.
pub open spec fn load_step(base: (u64, u64), reading: Option<(nat, nat)>) -> (
    Result<LoadDelta, StatError>,
    (u64, u64),
) {
    match reading {
        None => (Err(StatError::NoCpuLine), base),
        Some((i, t)) => if gain(t, base.1) == 0 {
            (Ok(LoadDelta { idle_delta: 0, total_delta: 0 }), base)
        } else {
            (
                Ok(
                    LoadDelta {
                        idle_delta: gain(i, base.0) as u64,
                        total_delta: gain(t, base.1) as u64,
                    },
                ),
                (i as u64, t as u64),
            )
        },
    }
}

impl CpuLoad {
    /// A load meter whose baseline is the reading in `stat` (the text of
    /// `/proc/stat`).
    pub fn new(stat: &str) -> (r: Result<CpuLoad, StatError>)
        requires
            stat_fits(stat@),
        ensures
            match stat_idle_total(stat@) {
                Some((i, t)) => r matches Ok(load) && load@ == (i as u64, t as u64),
                None => r == Err::<CpuLoad, StatError>(StatError::NoCpuLine),
            },
    {
        match stat_idle_total_of(stat) {
            Some((idle, total)) => Ok(CpuLoad { prev_idle: idle, prev_total: total }),
            None => Err(StatError::NoCpuLine),
        }
    }

    /// Takes a new reading: when total time has grown, reports the gains and
    /// makes the reading the baseline; when it has not, reports no load and
    /// keeps the baseline.
    pub fn update(&mut self, stat: &str) -> (r: Result<LoadDelta, StatError>)
        requires
            stat_fits(stat@),
        ensures
            (r, final(self)@) == load_step(old(self)@, stat_idle_total(stat@)),
    {
        match stat_idle_total_of(stat) {
            None => Err(StatError::NoCpuLine),
            Some((idle, total)) => {
                let total_delta = total.saturating_sub(self.prev_total);
                if total_delta == 0 {
                    return Ok(LoadDelta { idle_delta: 0, total_delta: 0 });
                }
                let idle_delta = idle.saturating_sub(self.prev_idle);
                self.prev_idle = idle;
                self.prev_total = total;
                Ok(LoadDelta { idle_delta, total_delta })
            },
        }
    }
}

// ---------------------------------------------------------------------------
// The integer usage percentage of the status bar
// ---------------------------------------------------------------------------

/// Total time (the sum of the numbers) and idle time (the fourth number)
/// from the first line of `/proc/stat`.
#[derive(Clone, Copy, Debug, PartialEq, Eq, Structural)]
pub struct CpuStats {
    pub total: u64,
    pub idle: u64,
}

/// The reading that `/proc/stat` gives: no line, or fewer than four numbers
/// on the first line, is an error.
pub open spec fn cpu_stats_of(s: Seq<char>) -> Result<CpuStats, StatError> {
    match first_line_values(s) {
        None => Err(StatError::NoCpuLine),
        Some(v) => if v.len() < 4 {
            Err(StatError::InvalidCpuStats)
        } else {
            Ok(CpuStats { total: seq_sum(v) as u64, idle: v[3] })
        },
    }
}

/// The sum of the first line's numbers fits in a `u64` (when it is taken).
pub open spec fn cpu_stats_fit(s: Seq<char>) -> bool {
    match first_line_values(s) {
        Some(v) => v.len() >= 4 ==> seq_sum(v) <= u64::MAX,
        None => true,
    }
}

/// The usage percentage between two readings can be computed: neither
/// total nor idle time went backwards and, when total time grew, idle time
/// grew no more than it and a hundredfold busy time fits in a `u64`.
pub open spec fn usage_defined(now: CpuStats, before: CpuStats) -> bool {
    &&& now.total >= before.total
    &&& now.idle >= before.idle
    &&& now.total > before.total ==> {
        let dt = now.total - before.total;
        let di = now.idle - before.idle;
        di <= dt && (dt - di) * 100 <= u64::MAX
    }
}

/// The usage percentage between two readings: busy time gained over total
/// time gained, times one hundred, rounded down; zero when no time passed.
pub open spec fn usage_percent(now: CpuStats, before: CpuStats) -> int {
    let dt = now.total - before.total;
    let di = now.idle - before.idle;
    if dt > 0 {
        (dt - di) * 100 / dt
    } else {
        0
    }
}

impl CpuStats {
    /// The reading in the text of `/proc/stat`.
    pub fn from_proc_stat(stat: &str) -> (r: Result<CpuStats, StatError>)
        requires
            cpu_stats_fit(stat@),
        ensures
            r == cpu_stats_of(stat@),
    {
        match first_line_values_of(stat) {
            None => Err(StatError::NoCpuLine),
            Some(v) => {
                if v.len() < 4 {
                    return Err(StatError::InvalidCpuStats);
                }
                match checked_sum(&v) {
                    Some(total) => Ok(CpuStats { total, idle: v[3] }),
                    None => Err(StatError::InvalidCpuStats),
                }
            },
        }
    }

    /// Tells whether the sum of the first line's numbers fits in a `u64`,
    /// as [`CpuStats::from_proc_stat`] needs.
    pub fn fits(stat: &str) -> (r: bool)
        ensures
            r == cpu_stats_fit(stat@),
    {
        match first_line_values_of(stat) {
            None => true,
            Some(v) => {
                if v.len() < 4 {
                    return true;
                }
                match checked_sum(&v) {
                    Some(_) => true,
                    None => false,
                }
            },
        }
    }

    /// The reading kept in the state file: total, then idle.
    pub fn from_log_text(text: &str) -> (r: CpuStats)
        ensures
            (r.total, r.idle) == pair_of(text@),
    {
        let (total, idle) = read_pair(text);
        CpuStats { total, idle }
    }

    /// The text the state file is written with.
    pub fn log_text(&self) -> (r: String)
        ensures
            r@ == pair_text(self.total, self.idle),
    {
        write_pair(self.total, self.idle)
    }

    /// Tells whether the usage since `before` can be computed.
    pub fn usage_defined_since(&self, before: CpuStats) -> (r: bool)
        ensures
            r == usage_defined(*self, before),
    {
        if self.total < before.total || self.idle < before.idle {
            return false;
        }
        if self.total == before.total {
            return true;
        }
        let dt = self.total - before.total;
        let di = self.idle - before.idle;
        di <= dt && dt - di <= u64::MAX / 100
    }

    /// The usage percentage since the reading `before`.
    pub fn usage_since(&self, before: CpuStats) -> (r: u8)
        requires
            usage_defined(*self, before),
        ensures
            r == usage_percent(*self, before),
            r <= 100,
    {
        let delta_total = self.total - before.total;
        let delta_idle = self.idle - before.idle;
        if delta_total > 0 {
            let busy = delta_total - delta_idle;
            proof {
                assert((busy * 100) as int / (delta_total as int) <= 100) by (nonlinear_arith)
                    requires
                        busy <= delta_total,
                        delta_total > 0,
                ;
            }
            ((busy * 100) / delta_total) as u8
        } else {
            0
        }
    }
}

} // verus!
