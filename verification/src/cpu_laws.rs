//! Properties of the CPU readings over all inputs.
use vstd::prelude::*;
use crate::cpu::{
    bar_for, cpu_time_of, sat_sub, stat_line_kind, stat_scan, CpuTime, StatLineKind,
};
use crate::cpu_load::{
    first_line_values, number_of_word, seq_sum, stat_idle_total, stat_values, usage_defined,
    usage_percent, value_at, CpuStats,
};
use crate::network::kbps;
use crate::number::parse_u64;
use crate::text::{starts_with, trim, words};

verus! {

broadcast use vstd::seq_lib::group_seq_properties;

/// The seven counters of a line body, read in order (user, nice, system,
/// idle, iowait, irq, softirq), give idle time idle + iowait and busy time
/// user + nice + system + irq + softirq; words after the seventh do not
/// matter.
pub proof fn law_cpu_time_counters(s: Seq<char>, f: Seq<u64>)
    requires
        f.len() == 7,
        words(s).len() >= 7,
        forall|k: int| 0 <= k < 7 ==> parse_u64(#[trigger] words(s)[k]) == Some(f[k]),
    ensures
        cpu_time_of(s) == Some(
            CpuTime {
                idle: (f[3] + f[4]) as u64,
                non_idle: (f[0] + f[1] + f[2] + f[5] + f[6]) as u64,
            },
        ),
{
    let w = words(s);
    assert(forall|k: int| 0 <= k < 7 ==> (#[trigger] parse_u64(w[k])) is Some);
}

/// A line body with fewer than seven words, or with a word among the first
/// seven that is no number, gives no time.
pub proof fn law_cpu_time_needs_seven_numbers(s: Seq<char>, k: int)
    requires
        words(s).len() < 7 || (0 <= k < 7 && k < words(s).len() && parse_u64(words(s)[k])
            is None),
    ensures
        cpu_time_of(s) is None,
{
}

/// A line that reads `cpu `, then a body that does not itself begin with
/// `cpu ` (once trimmed), is the total line, with that body.
pub proof fn law_total_line_body(l: Seq<char>, b: Seq<char>)
    requires
        trim(l) == seq!['c', 'p', 'u', ' '] + b,
        !starts_with(b, seq!['c', 'p', 'u', ' ']),
    ensures
        stat_line_kind(l) == StatLineKind::Total(b),
{
    reveal_strlit("cpu ");
    let t = trim(l);
    assert("cpu "@ =~= seq!['c', 'p', 'u', ' ']);
    assert(t.take(4) =~= "cpu "@);
    assert(t.skip(4) =~= b);
    assert(crate::text::strip_prefixes(b, "cpu "@) == b);
}

/// A trimmed line whose first character is not `c` is neither a total nor
/// a core line.
pub proof fn law_other_line(l: Seq<char>)
    requires
        trim(l).len() == 0 || trim(l)[0] != 'c',
    ensures
        stat_line_kind(l) == StatLineKind::Other,
{
    reveal_strlit("cpu ");
    reveal_strlit("cpu");
    let t = trim(l);
    if t.len() >= 3 {
        assert(t.take(3)[0] != "cpu"@[0]);
    }
    if t.len() >= 4 {
        assert(t.take(4)[0] != "cpu "@[0]);
    }
}

/// Reading one more line of `/proc/stat`: a core line whose counters parse
/// adds exactly that core, in order; a total line replaces the total; any
/// other line changes nothing; once a malformed line was met nothing is
/// read any more.
pub proof fn law_stat_scan_step(ls: Seq<Seq<char>>, l: Seq<char>)
    ensures
        stat_scan(ls) is None ==> stat_scan(ls.push(l)) is None,
        stat_scan(ls) matches Some((total, cores)) ==> match stat_line_kind(l) {
            StatLineKind::Core(b) => match cpu_time_of(b) {
                Some(c) => stat_scan(ls.push(l)) == Some((total, cores.push(c))),
                None => stat_scan(ls.push(l)) == Some((total, cores)),
            },
            StatLineKind::Total(b) => stat_scan(ls.push(l)) == Some((cpu_time_of(b), cores)),
            StatLineKind::Other => stat_scan(ls.push(l)) == Some((total, cores)),
            StatLineKind::Malformed => stat_scan(ls.push(l)) is None,
        },
{
    assert(ls.push(l).drop_last() =~= ls);
}

/// A difference floored at zero: the plain difference when it is not
/// negative, zero otherwise.
pub proof fn law_sat_sub(a: u64, b: u64)
    ensures
        a >= b ==> sat_sub(a, b) + b == a,
        a < b ==> sat_sub(a, b) == 0,
{
}

/// Bars rise one character per level, from `▁` at level 0 to `█` at level 7
/// and above.
pub proof fn law_bar_levels(level: usize)
    ensures
        level <= 7 ==> bar_for(level) as u32 == 0x2581 + level,
        level >= 7 ==> bar_for(level) == '█',
        bar_for(0) == '▁',
{
}

/// The usage percentage is the busy share of the time gained, rounded
/// down: `u` with `u * dt <= busy * 100 < (u + 1) * dt`.
pub proof fn law_usage_rounds_down(now: CpuStats, before: CpuStats)
    requires
        usage_defined(now, before),
        now.total > before.total,
    ensures
        ({
            let dt = now.total - before.total;
            let busy = dt - (now.idle - before.idle);
            let u = usage_percent(now, before);
            u * dt <= busy * 100 < (u + 1) * dt
        }),
{
    let dt = now.total - before.total;
    let busy = dt - (now.idle - before.idle);
    let u = busy * 100 / dt;
    assert(u * dt <= busy * 100 < (u + 1) * dt) by (nonlinear_arith)
        requires
            dt > 0,
            busy >= 0,
            u == busy * 100 / dt,
    ;
}

/// The idle time of the load meter's reading is the fourth and fifth
/// numbers of the first line, its total the sum of all of them.
pub proof fn law_stat_idle_total(s: Seq<char>, v: Seq<u64>)
    requires
        first_line_values(s) == Some(v),
    ensures
        stat_idle_total(s) == Some(((value_at(v, 3) + value_at(v, 4)) as nat, seq_sum(v))),
        v.len() >= 5 ==> value_at(v, 3) + value_at(v, 4) == v[3] + v[4],
        v.len() == 4 ==> value_at(v, 3) + value_at(v, 4) == v[3],
{
}

/// The sum of numbers grows by each number added.
pub proof fn law_seq_sum_push(v: Seq<u64>, x: u64)
    ensures
        seq_sum(v.push(x)) == seq_sum(v) + x,
        seq_sum(Seq::<u64>::empty()) == 0,
{
    assert(v.push(x).drop_last() =~= v);
}

/// Kilobits per second over the two-second interval: a byte gain of `b`
/// is `b * 8 / 2 / 1000`, that is `b / 250` rounded down.
pub proof fn law_kbps(b: nat)
    ensures
        kbps(b) == b / 250,
{
    assert(b * 8 / 2 / 1000 == b / 250) by (nonlinear_arith);
}

proof fn lemma_filter_map_all_numbers(ws: Seq<Seq<char>>, v: Seq<u64>)
    requires
        v.len() == ws.len(),
        forall|k: int| 0 <= k < ws.len() ==> parse_u64(#[trigger] ws[k]) == Some(v[k]),
    ensures
        ws.filter_map(number_of_word()) == v,
    decreases ws.len(),
{
    if ws.len() > 0 {
        let w0 = ws.drop_last();
        let v0 = v.drop_last();
        assert forall|k: int| 0 <= k < w0.len() implies parse_u64(#[trigger] w0[k]) == Some(v0[k]) by {
            assert(w0[k] == ws[k]);
        }
        lemma_filter_map_all_numbers(w0, v0);
        assert(parse_u64(ws[ws.len() - 1]) == Some(v[v.len() - 1]));
        assert(v0 + seq![v.last()] =~= v);
    } else {
        assert(v =~= Seq::<u64>::empty());
    }
}

/// When every word after a line's label is a number, the line's numbers
/// are exactly those words' values, in order.
pub proof fn law_stat_values_all_numbers(line: Seq<char>, v: Seq<u64>)
    requires
        words(line).len() == v.len() + 1,
        forall|k: int| 0 <= k < v.len() ==> parse_u64(#[trigger] words(line)[k + 1]) == Some(v[k]),
    ensures
        stat_values(line) == v,
{
    let ws = words(line).drop_first();
    assert forall|k: int| 0 <= k < ws.len() implies parse_u64(#[trigger] ws[k]) == Some(v[k]) by {
        assert(ws[k] == words(line)[k + 1]);
    }
    lemma_filter_map_all_numbers(ws, v);
}

} // verus!
