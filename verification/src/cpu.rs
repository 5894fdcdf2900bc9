//! CPU time from the `cpu` lines of `/proc/stat`: one line's counters, the
//! whole file's total and per-core times, the utilization between two
//! readings and the per-core bar chart.
use vstd::prelude::*;
use crate::alert::{Alert, Urgency};
use crate::number::{parse_u64, parse_u64_chars};
use crate::text::{
    after_first, after_first_char, chars_of, has_prefix, seqs_of, starts_with, string_of,
    strip_prefixes, strip_prefixes_chars, trim, trim_chars, words, words_of,
};

verus! {

broadcast use vstd::seq_lib::group_seq_properties;

/// Cumulative CPU time of one `cpu` line, split into idle time (idle and
/// iowait) and the rest (user, nice, system, irq and softirq).
#[derive(Clone, Copy, Debug, PartialEq, Eq, Structural)]
pub struct CpuTime {
    pub idle: u64,
    pub non_idle: u64,
}

/// The seven counters at the start of a `cpu` line's body (user, nice,
/// system, idle, iowait, irq, softirq): its first seven words, each read as a
/// `u64`; `None` when there are fewer words or one of them is no number.
pub open spec fn cpu_fields(s: Seq<char>) -> Option<Seq<u64>> {
    let w = words(s);
    if w.len() >= 7 && (forall|i: int| 0 <= i < 7 ==> (#[trigger] parse_u64(w[i])) is Some) {
        Some(Seq::new(7, |i: int| parse_u64(w[i])->0))
    } else {
        None
    }
}

/// Idle time of the counters: idle plus iowait.
pub open spec fn fields_idle(f: Seq<u64>) -> int {
    f[3] + f[4]
}

/// Busy time of the counters: user, nice, system, irq and softirq.
pub open spec fn fields_non_idle(f: Seq<u64>) -> int {
    f[0] + f[1] + f[2] + f[5] + f[6]
}

/// The sums of a line's counters fit in a `u64` (they always do when the
/// line has no seven counters).
pub open spec fn cpu_line_fits(s: Seq<char>) -> bool {
    match cpu_fields(s) {
        Some(f) => fields_idle(f) <= u64::MAX && fields_non_idle(f) <= u64::MAX,
        None => true,
    }
}

/// The CPU time that a `cpu` line's body gives.
pub open spec fn cpu_time_of(s: Seq<char>) -> Option<CpuTime> {
    match cpu_fields(s) {
        Some(f) => Some(CpuTime { idle: fields_idle(f) as u64, non_idle: fields_non_idle(f) as u64 }),
        None => None,
    }
}

/// `a - b`, or zero when `b` is the larger.
pub open spec fn sat_sub(a: u64, b: u64) -> u64 {
    if a >= b {
        (a - b) as u64
    } else {
        0
    }
}

/// Total time of a reading.
pub open spec fn total_of(t: CpuTime) -> int {
    t.idle + t.non_idle
}

impl CpuTime {
    /// Reads the counters of a `cpu` line's body (the part after the
    /// `cpu`/`cpuN` label).
    pub fn from_str(s: &str) -> (r: Option<CpuTime>)
        requires
            cpu_line_fits(s@),
        ensures
            r == cpu_time_of(s@),
    {
        let c = chars_of(s);
        let w = words_of(&c);
        if w.len() < 7 {
            return None;
        }
        let ghost ws = seqs_of(w@);
        let mut f: Vec<u64> = Vec::new();
        let mut i: usize = 0;
        while i < 7
            invariant
                ws == seqs_of(w@),
                ws == words(s@),
                w.len() >= 7,
                i <= 7,
                f@.len() == i,
                forall|j: int| 0 <= j < i ==> parse_u64(#[trigger] ws[j]) == Some(f@[j]),
            decreases 7 - i,
        {
            match parse_u64_chars(&w[i]) {
                Some(v) => {
                    f.push(v);
                },
                None => {
                    proof {
                        assert(parse_u64(ws[i as int]) is None);
                    }
                    return None;
                },
            }
            i = i + 1;
        }
        let ghost fs = cpu_fields(s@)->0;
        proof {
            assert(forall|j: int| 0 <= j < 7 ==> #[trigger] parse_u64(ws[j]) is Some);
            assert(forall|j: int| 0 <= j < 7 ==> fs[j] == f@[j]);
        }
        let idle = f[3] + f[4];
        let non_idle = f[0] + f[1] + f[2] + f[5] + f[6];
        Some(CpuTime { idle, non_idle })
    }

    /// Tells whether the sums of a line body's counters fit in a `u64`, as
    /// `from_str` needs.
    pub fn fits(s: &str) -> (r: bool)
        ensures
            r == cpu_line_fits(s@),
    {
        let c = chars_of(s);
        let w = words_of(&c);
        if w.len() < 7 {
            return true;
        }
        let ghost ws = seqs_of(w@);
        let mut f: Vec<u64> = Vec::new();
        let mut i: usize = 0;
        while i < 7
            invariant
                ws == seqs_of(w@),
                ws == words(s@),
                w.len() >= 7,
                i <= 7,
                f@.len() == i,
                forall|j: int| 0 <= j < i ==> parse_u64(#[trigger] ws[j]) == Some(f@[j]),
            decreases 7 - i,
        {
            match parse_u64_chars(&w[i]) {
                Some(v) => {
                    f.push(v);
                },
                None => {
                    proof {
                        assert(parse_u64(ws[i as int]) is None);
                    }
                    return true;
                },
            }
            i = i + 1;
        }
        let ghost fs = cpu_fields(s@)->0;
        proof {
            assert(forall|j: int| 0 <= j < 7 ==> #[trigger] parse_u64(ws[j]) is Some);
            assert(forall|j: int| 0 <= j < 7 ==> fs[j] == f@[j]);
        }
        let idle_fits = f[3] <= u64::MAX - f[4];
        let a = f[0] as u128 + f[1] as u128 + f[2] as u128 + f[5] as u128 + f[6] as u128;
        idle_fits && a <= u64::MAX as u128
    }

    /// The utilization between an earlier reading `old` and this one, as a
    /// ratio: busy time gained over total time gained, each difference
    /// floored at zero. A zero denominator stands for no utilization.
    pub fn utilization_ratio(&self, old: CpuTime) -> (r: (u64, u64))
        requires
            total_of(*self) <= u64::MAX,
            total_of(old) <= u64::MAX,
        ensures
            r.0 == sat_sub(self.non_idle, old.non_idle),
            r.1 == sat_sub((total_of(*self)) as u64, (total_of(old)) as u64),
    {
        let total = self.idle + self.non_idle;
        let old_total = old.idle + old.non_idle;
        let totald = total.saturating_sub(old_total);
        let non_idle_diff = self.non_idle.saturating_sub(old.non_idle);
        (non_idle_diff, totald)
    }
}

// ---------------------------------------------------------------------------
// The whole of /proc/stat
// ---------------------------------------------------------------------------

/// How a line of `/proc/stat` is read, after trimming.
pub enum StatLine {
    /// The aggregate `cpu ` line, with the body left after the label.
    Total(Vec<char>),
    /// A per-core `cpuN` line, with the body after its first space.
    Core(Vec<char>),
    /// A `cpu…` line with no space, which ends the reading with nothing.
    Malformed,
    /// Any other line.
    Other,
}

/// The spec counterpart of [`StatLine`].
pub enum StatLineKind {
    Total(Seq<char>),
    Core(Seq<char>),
    Malformed,
    Other,
}

/// How a line is read: a trimmed line that starts with `cpu ` is the total,
/// its body what is left once every leading `cpu ` is stripped; another line
/// that starts with `cpu` is a core, its body what follows the first space.
pub open spec fn stat_line_kind(l: Seq<char>) -> StatLineKind {
    let t = trim(l);
    if starts_with(t, "cpu "@) {
        StatLineKind::Total(strip_prefixes(t, "cpu "@))
    } else if starts_with(t, "cpu"@) {
        match after_first(t, ' ') {
            Some(rest) => StatLineKind::Core(rest),
            None => StatLineKind::Malformed,
        }
    } else {
        StatLineKind::Other
    }
}

/// The state of a scan over the lines read so far: the last total line's
/// time (if it parsed) and the per-core times that parsed, in order; `None`
/// once a malformed `cpu` line was met.
pub open spec fn stat_scan(ls: Seq<Seq<char>>) -> Option<(Option<CpuTime>, Seq<CpuTime>)>
    decreases ls.len(),
{
    if ls.len() == 0 {
        Some((None, Seq::empty()))
    } else {
        match stat_scan(ls.drop_last()) {
            None => None,
            Some((total, cores)) => match stat_line_kind(ls.last()) {
                StatLineKind::Total(body) => Some((cpu_time_of(body), cores)),
                StatLineKind::Core(body) => match cpu_time_of(body) {
                    Some(c) => Some((total, cores.push(c))),
                    None => Some((total, cores)),
                },
                StatLineKind::Malformed => None,
                StatLineKind::Other => Some((total, cores)),
            },
        }
    }
}

/// The counters of every line body that the scan reads fit in a `u64`.
pub open spec fn stat_lines_fit(ls: Seq<Seq<char>>) -> bool
    decreases ls.len(),
{
    if ls.len() == 0 {
        true
    } else {
        &&& stat_lines_fit(ls.drop_last())
        &&& (stat_scan(ls.drop_last()) is Some ==> match stat_line_kind(ls.last()) {
            StatLineKind::Total(body) => cpu_line_fits(body),
            StatLineKind::Core(body) => cpu_line_fits(body),
            _ => true,
        })
    }
}

/// The total and per-core times of `/proc/stat`: `None` when no total line
/// parsed or a malformed `cpu` line occurs.
pub open spec fn proc_stat_times_of(ls: Seq<Seq<char>>) -> Option<(CpuTime, Seq<CpuTime>)> {
    match stat_scan(ls) {
        Some((Some(t), cores)) => Some((t, cores)),
        _ => None,
    }
}

/// The character sequences of a list of lines.
pub open spec fn line_views(v: Seq<String>) -> Seq<Seq<char>> {
    v.map_values(|l: String| l@)
}

/// Reads one line of `/proc/stat`.
pub fn classify_stat_line(l: &str) -> (r: StatLine)
    ensures
        match (r, stat_line_kind(l@)) {
            (StatLine::Total(b), StatLineKind::Total(sb)) => b@ == sb,
            (StatLine::Core(b), StatLineKind::Core(sb)) => b@ == sb,
            (StatLine::Malformed, StatLineKind::Malformed) => true,
            (StatLine::Other, StatLineKind::Other) => true,
            _ => false,
        },
{
    let c = chars_of(l);
    let t = trim_chars(&c);
    let total_prefix = chars_of("cpu ");
    let core_prefix = chars_of("cpu");
    if has_prefix(&t, &total_prefix) {
        StatLine::Total(strip_prefixes_chars(&t, &total_prefix))
    } else if has_prefix(&t, &core_prefix) {
        match after_first_char(&t, ' ') {
            Some(rest) => StatLine::Core(rest),
            None => StatLine::Malformed,
        }
    } else {
        StatLine::Other
    }
}

/// Reads the total and per-core CPU times from the lines of `/proc/stat`:
/// the last `cpu ` line gives the total, each `cpuN` line whose counters
/// parse adds a core.
pub fn proc_stat_times(lines: &Vec<String>) -> (r: Option<(CpuTime, Vec<CpuTime>)>)
    requires
        stat_lines_fit(line_views(lines@)),
    ensures
        match r {
            Some((t, cores)) => proc_stat_times_of(line_views(lines@)) == Some((t, cores@)),
            None => proc_stat_times_of(line_views(lines@)) is None,
        },
{
    let ghost ls = line_views(lines@);
    let mut total: Option<CpuTime> = None;
    let mut cores: Vec<CpuTime> = Vec::new();
    let mut i: usize = 0;
    while i < lines.len()
        invariant
            i <= lines.len(),
            ls == line_views(lines@),
            stat_lines_fit(ls),
            stat_scan(ls.take(i as int)) == Some((total, cores@)),
        decreases lines.len() - i,
    {
        let ghost pre = ls.take(i as int);
        let ghost next = ls.take(i + 1);
        proof {
            assert(next.drop_last() =~= pre);
            assert(next.last() == ls[i as int]);
            lemma_stat_lines_fit_prefix(ls, i + 1);
        }
        let line: &str = lines[i].as_str();
        match classify_stat_line(line) {
            StatLine::Total(body) => {
                let body_s = string_of(&body);
                total = CpuTime::from_str(body_s.as_str());
            },
            StatLine::Core(body) => {
                let body_s = string_of(&body);
                match CpuTime::from_str(body_s.as_str()) {
                    Some(t) => {
                        cores.push(t);
                    },
                    None => {},
                }
            },
            StatLine::Malformed => {
                proof {
                    lemma_stat_scan_none_stays(ls, i + 1);
                }
                return None;
            },
            StatLine::Other => {},
        }
        i = i + 1;
    }
    proof {
        assert(ls.take(lines.len() as int) =~= ls);
    }
    match total {
        Some(t) => Some((t, cores)),
        None => None,
    }
}

/// Tells whether the counters that a scan of these lines reads fit in a
/// `u64`, as [`proc_stat_times`] needs.
pub fn proc_stat_fits(lines: &Vec<String>) -> (r: bool)
    ensures
        r == stat_lines_fit(line_views(lines@)),
{
    let ghost ls = line_views(lines@);
    let mut total: Option<CpuTime> = None;
    let mut cores: Vec<CpuTime> = Vec::new();
    let mut i: usize = 0;
    while i < lines.len()
        invariant
            i <= lines.len(),
            ls == line_views(lines@),
            stat_lines_fit(ls.take(i as int)),
            stat_scan(ls.take(i as int)) == Some((total, cores@)),
        decreases lines.len() - i,
    {
        let ghost pre = ls.take(i as int);
        let ghost next = ls.take(i + 1);
        proof {
            assert(next.drop_last() =~= pre);
            assert(next.last() == ls[i as int]);
        }
        let line: &str = lines[i].as_str();
        match classify_stat_line(line) {
            StatLine::Total(body) => {
                let body_s = string_of(&body);
                if !CpuTime::fits(body_s.as_str()) {
                    proof {
                        lemma_stat_lines_fit_prefix_neg(ls, i + 1);
                    }
                    return false;
                }
                total = CpuTime::from_str(body_s.as_str());
            },
            StatLine::Core(body) => {
                let body_s = string_of(&body);
                if !CpuTime::fits(body_s.as_str()) {
                    proof {
                        lemma_stat_lines_fit_prefix_neg(ls, i + 1);
                    }
                    return false;
                }
                match CpuTime::from_str(body_s.as_str()) {
                    Some(t) => {
                        cores.push(t);
                    },
                    None => {},
                }
            },
            StatLine::Malformed => {
                proof {
                    lemma_stat_fit_after_none(ls, i + 1);
                }
                return true;
            },
            StatLine::Other => {},
        }
        i = i + 1;
    }
    proof {
        assert(ls.take(lines.len() as int) =~= ls);
    }
    true
}

proof fn lemma_stat_lines_fit_prefix(ls: Seq<Seq<char>>, k: int)
    requires
        0 <= k <= ls.len(),
        stat_lines_fit(ls),
    ensures
        stat_lines_fit(ls.take(k)),
    decreases ls.len(),
{
    if k < ls.len() {
        assert(ls.drop_last().take(k) =~= ls.take(k));
        lemma_stat_lines_fit_prefix(ls.drop_last(), k);
    } else {
        assert(ls.take(k) =~= ls);
    }
}

proof fn lemma_stat_lines_fit_prefix_neg(ls: Seq<Seq<char>>, k: int)
    requires
        0 <= k <= ls.len(),
        !stat_lines_fit(ls.take(k)),
    ensures
        !stat_lines_fit(ls),
{
    if stat_lines_fit(ls) {
        lemma_stat_lines_fit_prefix(ls, k);
    }
}

proof fn lemma_stat_scan_none_stays(ls: Seq<Seq<char>>, k: int)
    requires
        0 <= k <= ls.len(),
        stat_scan(ls.take(k)) is None,
    ensures
        stat_scan(ls) is None,
    decreases ls.len() - k,
{
    if k < ls.len() {
        let next = ls.take(k + 1);
        assert(next.drop_last() =~= ls.take(k));
        lemma_stat_scan_none_stays(ls, k + 1);
    } else {
        assert(ls.take(k) =~= ls);
    }
}

proof fn lemma_stat_fit_after_none(ls: Seq<Seq<char>>, k: int)
    requires
        0 <= k <= ls.len(),
        stat_lines_fit(ls.take(k)),
        stat_scan(ls.take(k)) is None,
    ensures
        stat_lines_fit(ls),
    decreases ls.len() - k,
{
    if k < ls.len() {
        let next = ls.take(k + 1);
        assert(next.drop_last() =~= ls.take(k));
        lemma_stat_fit_after_none(ls, k + 1);
    } else {
        assert(ls.take(k) =~= ls);
    }
}

// ---------------------------------------------------------------------------
// Per-core utilization and the bar chart
// ---------------------------------------------------------------------------

/// Pairs the per-core readings of two samples: `None` when the number of
/// cores differs, else each core's utilization ratio between them.
pub fn core_utilization_ratios(new: &Vec<CpuTime>, prev: &Vec<CpuTime>) -> (r: Option<
    Vec<(u64, u64)>,
>)
    requires
        new@.len() == prev@.len() ==> forall|i: int|
            0 <= i < new@.len() ==> total_of(#[trigger] new@[i]) <= u64::MAX,
        new@.len() == prev@.len() ==> forall|i: int|
            0 <= i < prev@.len() ==> total_of(#[trigger] prev@[i]) <= u64::MAX,
    ensures
        r is None <==> new@.len() != prev@.len(),
        r matches Some(v) ==> v@.len() == new@.len() && forall|i: int|
            0 <= i < v@.len() ==> (#[trigger] v@[i]).0 == sat_sub(new@[i].non_idle, prev@[i].non_idle)
                && v@[i].1 == sat_sub(total_of(new@[i]) as u64, total_of(prev@[i]) as u64),
{
    if new.len() != prev.len() {
        return None;
    }
    let mut v: Vec<(u64, u64)> = Vec::new();
    let mut i: usize = 0;
    while i < new.len()
        invariant
            new@.len() == prev@.len(),
            i <= new@.len(),
            v@.len() == i,
            forall|i: int| 0 <= i < new@.len() ==> total_of(#[trigger] new@[i]) <= u64::MAX,
            forall|i: int| 0 <= i < prev@.len() ==> total_of(#[trigger] prev@[i]) <= u64::MAX,
            forall|j: int|
                0 <= j < i ==> (#[trigger] v@[j]).0 == sat_sub(new@[j].non_idle, prev@[j].non_idle)
                    && v@[j].1 == sat_sub(total_of(new@[j]) as u64, total_of(prev@[j]) as u64),
        decreases new.len() - i,
    {
        let a = new[i];
        let b = prev[i];
        v.push(a.utilization_ratio(b));
        i = i + 1;
    }
    Some(v)
}

/// The bar characters from lowest to highest.
pub open spec fn box_chars() -> Seq<char> {
    seq!['▁', '▂', '▃', '▄', '▅', '▆', '▇', '█']
}

/// The bar for a level: levels above seven get the highest bar.
pub open spec fn bar_for(level: usize) -> char {
    if level > 7 {
        box_chars()[7]
    } else {
        box_chars()[level as int]
    }
}

/// One bar character per core, from each core's level (its utilization
/// scaled to 0..=7).
pub fn bar_chart(levels: &Vec<usize>) -> (r: String)
    ensures
        r@.len() == levels@.len(),
        forall|i: int| 0 <= i < levels@.len() ==> r@[i] == bar_for(#[trigger] levels@[i]),
{
    let boxes: [char; 8] = ['▁', '▂', '▃', '▄', '▅', '▆', '▇', '█'];
    proof {
        assert(boxes@ =~= box_chars());
    }
    let mut out: Vec<char> = Vec::new();
    let mut i: usize = 0;
    while i < levels.len()
        invariant
            boxes@ == box_chars(),
            i <= levels@.len(),
            out@.len() == i,
            forall|j: int| 0 <= j < i ==> out@[j] == bar_for(#[trigger] levels@[j]),
        decreases levels.len() - i,
    {
        let mut idx = levels[i];
        if idx > 7 {
            idx = 7;
        }
        out.push(boxes[idx]);
        i = i + 1;
    }
    string_of(&out)
}

/// Whether overall usage calls for a notification: the utilization ratio
/// `busy / total` is above 90% (no time gained is no usage).
pub fn cpu_alert_due(busy: u64, total: u64) -> (r: bool)
    ensures
        r == (total > 0 && busy as int * 10 > total as int * 9),
{
    total > 0 && (busy as u128) * 10 > (total as u128) * 9
}

/// The notification for overall CPU usage above 90%.
pub fn cpu_usage_alert() -> (r: Alert)
    ensures
        r.summary@ == "CPU Usage Warning"@,
        r.body@ == "CPU usage exceeded 90%"@,
        r.urgency == Urgency::Critical,
{
    Alert {
        summary: string_of(&chars_of("CPU Usage Warning")),
        body: string_of(&chars_of("CPU usage exceeded 90%")),
        urgency: Urgency::Critical,
    }
}

} // verus!
