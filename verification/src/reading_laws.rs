//! Properties of the individual readings: what each result must be for
//! whole families of inputs.
use vstd::prelude::*;
use crate::battery::battery_segment;
use crate::cpu::{stat_line_kind, StatLineKind};
use crate::cpu_load::{load_step, LoadDelta, StatError};
use crate::memory::{
    available_mb_first_line, available_mb_first_value, available_mb_last_value, first_available,
    first_valued, is_available_line, is_valued_line, last_valued,
};
use crate::network::{
    counter_totals_of, counter_value, iface_selected, InterfaceReading, InterfaceSelection,
};
use crate::number::{all_digits, decimal, is_digit, parse_u64};
use crate::text::{after_first, lines, starts_with, trim, words};

verus! {

broadcast use vstd::seq_lib::group_seq_properties;

// ---------------------------------------------------------------------------
// The load meter
// ---------------------------------------------------------------------------

/// After a reading in which total time grew, the meter's baseline is that
/// reading, idle and total alike; so over three readings with growing total
/// time the second step reports exactly the gains between the second and the
/// third reading.
pub proof fn law_load_meter_baseline_follows(
    i0: nat,
    t0: nat,
    i1: nat,
    t1: nat,
    i2: nat,
    t2: nat,
)
    requires
        t0 < t1 < t2 <= u64::MAX,
        i0 <= i1 <= i2 <= u64::MAX,
    ensures
        load_step((i0 as u64, t0 as u64), Some((i1, t1))).1 == (i1 as u64, t1 as u64),
        load_step((i0 as u64, t0 as u64), Some((i1, t1))).0 == Ok::<LoadDelta, StatError>(
            LoadDelta { idle_delta: (i1 - i0) as u64, total_delta: (t1 - t0) as u64 },
        ),
        load_step(load_step((i0 as u64, t0 as u64), Some((i1, t1))).1, Some((i2, t2))).0
            == Ok::<LoadDelta, StatError>(
            LoadDelta { idle_delta: (i2 - i1) as u64, total_delta: (t2 - t1) as u64 },
        ),
{
}

/// A reading in which total time did not grow reports no load and leaves
/// the baseline as it was; a missing line is an error and leaves it too.
pub proof fn law_load_meter_stalled(base: (u64, u64), i: nat, t: nat)
    requires
        t <= base.1,
    ensures
        load_step(base, Some((i, t))) == (
            Ok::<LoadDelta, StatError>(LoadDelta { idle_delta: 0, total_delta: 0 }),
            base,
        ),
        load_step(base, None) == (Err::<LoadDelta, StatError>(StatError::NoCpuLine), base),
{
}

// ---------------------------------------------------------------------------
// /proc/stat core lines
// ---------------------------------------------------------------------------

/// What follows the first `c` in `p + c + b`, when `p` holds no `c`, is `b`.
proof fn lemma_after_first_split(p: Seq<char>, c: char, b: Seq<char>)
    requires
        forall|i: int| 0 <= i < p.len() ==> p[i] != c,
    ensures
        after_first(p + seq![c] + b, c) == Some(b),
    decreases p.len(),
{
    let s = p + seq![c] + b;
    if p.len() == 0 {
        assert(s.drop_first() =~= b);
    } else {
        let q = p.drop_first();
        assert(s.drop_first() =~= q + seq![c] + b);
        lemma_after_first_split(q, c, b);
    }
}

/// A line that reads `cpu`, a core number, a space and a body (once
/// trimmed) is a per-core line whose counters are exactly that body,
/// whatever the number of digits of the core number.
pub proof fn law_core_line_body(l: Seq<char>, n: Seq<char>, b: Seq<char>)
    requires
        n.len() > 0,
        all_digits(n),
        trim(l) == seq!['c', 'p', 'u'] + n + seq![' '] + b,
    ensures
        stat_line_kind(l) == StatLineKind::Core(b),
{
    reveal_strlit("cpu ");
    reveal_strlit("cpu");
    let t = trim(l);
    let p = seq!['c', 'p', 'u'] + n;
    assert(t =~= p + seq![' '] + b);
    assert(is_digit(n[0]));
    assert(t[3] == n[0]);
    assert(t.take(4)[3] != ' ');
    assert(!starts_with(t, "cpu "@));
    assert(t.take(3) =~= "cpu"@);
    assert(starts_with(t, "cpu"@));
    assert forall|i: int| 0 <= i < p.len() implies p[i] != ' ' by {
        if i >= 3 {
            assert(p[i] == n[i - 3]);
            assert(is_digit(n[i - 3]));
        }
    }
    lemma_after_first_split(p, ' ', b);
}

// ---------------------------------------------------------------------------
// /proc/meminfo
// ---------------------------------------------------------------------------

proof fn lemma_last_valued_ignores_after(pre: Seq<Seq<char>>, l: Seq<char>, post: Seq<Seq<char>>)
    requires
        is_valued_line(l),
        forall|j: int| 0 <= j < post.len() ==> !is_available_line(#[trigger] post[j]),
    ensures
        last_valued(pre + seq![l] + post) == Some(pre.len() as int),
    decreases post.len(),
{
    let s = pre + seq![l] + post;
    if post.len() == 0 {
        assert(s.last() == l);
    } else {
        let q = post.drop_last();
        assert(s.drop_last() =~= pre + seq![l] + q);
        assert(s.last() == post[post.len() - 1]);
        lemma_last_valued_ignores_after(pre, l, q);
    }
}

proof fn lemma_first_ignores_before(pre: Seq<Seq<char>>, l: Seq<char>, post: Seq<Seq<char>>)
    requires
        is_valued_line(l),
        forall|j: int| 0 <= j < pre.len() ==> !is_available_line(#[trigger] pre[j]),
    ensures
        first_valued(pre + seq![l] + post) == Some(pre.len() as int),
        first_available(pre + seq![l] + post) == Some(pre.len() as int),
    decreases pre.len(),
{
    let s = pre + seq![l] + post;
    if pre.len() == 0 {
        assert(s[0] == l);
    } else {
        let q = pre.drop_first();
        assert(s.drop_first() =~= q + seq![l] + post);
        assert(s[0] == pre[0]);
        lemma_first_ignores_before(q, l, post);
    }
}

/// With one `MemAvailable:` line holding `k` kB, every reading of
/// `/proc/meminfo` gives `k / 1024` MiB, whatever other lines come before or
/// after it.
pub proof fn law_meminfo_available_line_decides(
    s: Seq<char>,
    pre: Seq<Seq<char>>,
    l: Seq<char>,
    post: Seq<Seq<char>>,
    k: u64,
)
    requires
        lines(s) == pre + seq![l] + post,
        starts_with(l, "MemAvailable:"@),
        words(l).len() >= 2,
        parse_u64(words(l)[1]) == Some(k),
        forall|j: int| 0 <= j < pre.len() ==> !starts_with(#[trigger] pre[j], "MemAvailable:"@),
        forall|j: int| 0 <= j < post.len() ==> !starts_with(#[trigger] post[j], "MemAvailable:"@),
    ensures
        available_mb_last_value(s) == k / 1024,
        available_mb_first_value(s) == k / 1024,
        available_mb_first_line(s) == k / 1024,
{
    let ls = pre + seq![l] + post;
    assert forall|j: int| 0 <= j < post.len() implies !is_available_line(#[trigger] post[j]) by {}
    assert forall|j: int| 0 <= j < pre.len() implies !is_available_line(#[trigger] pre[j]) by {}
    lemma_last_valued_ignores_after(pre, l, post);
    lemma_first_ignores_before(pre, l, post);
    assert(ls[pre.len() as int] == l);
}

proof fn lemma_first_available_at(pre: Seq<Seq<char>>, l: Seq<char>, post: Seq<Seq<char>>)
    requires
        is_available_line(l),
        forall|j: int| 0 <= j < pre.len() ==> !is_available_line(#[trigger] pre[j]),
    ensures
        first_available(pre + seq![l] + post) == Some(pre.len() as int),
    decreases pre.len(),
{
    let s = pre + seq![l] + post;
    if pre.len() == 0 {
        assert(s[0] == l);
    } else {
        assert(s.drop_first() =~= pre.drop_first() + seq![l] + post);
        assert(s[0] == pre[0]);
        lemma_first_available_at(pre.drop_first(), l, post);
    }
}

/// The memory that `MemoryInfo` reports is decided by the first
/// `MemAvailable:` line alone: when that line has no value after its label,
/// the report is zero whatever later lines hold.
pub proof fn law_meminfo_first_line_without_value(
    s: Seq<char>,
    pre: Seq<Seq<char>>,
    l: Seq<char>,
    post: Seq<Seq<char>>,
)
    requires
        lines(s) == pre + seq![l] + post,
        starts_with(l, "MemAvailable:"@),
        words(l).len() < 2,
        forall|j: int| 0 <= j < pre.len() ==> !starts_with(#[trigger] pre[j], "MemAvailable:"@),
    ensures
        available_mb_first_line(s) == 0,
{
    assert forall|j: int| 0 <= j < pre.len() implies !is_available_line(#[trigger] pre[j]) by {}
    lemma_first_available_at(pre, l, post);
    assert((pre + seq![l] + post)[pre.len() as int] == l);
}

// ---------------------------------------------------------------------------
// Network interfaces
// ---------------------------------------------------------------------------

/// Starting with a short prefix is agreeing on its first characters.
proof fn lemma_starts_with_chars(name: Seq<char>, p: Seq<char>)
    requires
        1 <= p.len() <= 3,
    ensures
        starts_with(name, p) <==> (name.len() >= p.len() && forall|k: int|
            0 <= k < p.len() ==> name[k] == p[k]),
{
    if name.len() >= p.len() && forall|k: int| 0 <= k < p.len() ==> name[k] == p[k] {
        assert(name.take(p.len() as int) =~= p);
    }
    if starts_with(name, p) {
        assert forall|k: int| 0 <= k < p.len() implies name[k] == p[k] by {
            assert(name.take(p.len() as int)[k] == name[k]);
        }
    }
}

/// Which interface names each selection counts, character by character:
/// names beginning `en`, `eth` or `wl`; names beginning `e` or `w`; every
/// name but those beginning `lo`.
pub proof fn law_interface_selection(name: Seq<char>)
    ensures
        iface_selected(InterfaceSelection::EthernetOrWireless, name) <==> (name.len() >= 2 && (
        (name[0] == 'e' && name[1] == 'n') || (name[0] == 'w' && name[1] == 'l') || (
        name.len() >= 3 && name[0] == 'e' && name[1] == 't' && name[2] == 'h'))),
        iface_selected(InterfaceSelection::StartsWithEOrW, name) <==> (name.len() >= 1 && (name[0]
            == 'e' || name[0] == 'w')),
        iface_selected(InterfaceSelection::AllButLoopback, name) <==> !(name.len() >= 2 && name[0]
            == 'l' && name[1] == 'o'),
{
    reveal_strlit("en");
    reveal_strlit("eth");
    reveal_strlit("wl");
    reveal_strlit("e");
    reveal_strlit("w");
    reveal_strlit("lo");
    assert("en"@ =~= seq!['e', 'n']);
    assert("eth"@ =~= seq!['e', 't', 'h']);
    assert("wl"@ =~= seq!['w', 'l']);
    assert("e"@ =~= seq!['e']);
    assert("w"@ =~= seq!['w']);
    assert("lo"@ =~= seq!['l', 'o']);
    lemma_starts_with_chars(name, "en"@);
    lemma_starts_with_chars(name, "eth"@);
    lemma_starts_with_chars(name, "wl"@);
    lemma_starts_with_chars(name, "e"@);
    lemma_starts_with_chars(name, "w"@);
    lemma_starts_with_chars(name, "lo"@);
}

/// A counted interface adds its counters to the totals; one that is not
/// counted adds nothing.
pub proof fn law_interface_counters_added(
    es: Seq<InterfaceReading>,
    e: InterfaceReading,
    sel: InterfaceSelection,
)
    ensures
        iface_selected(sel, e.name@) ==> counter_totals_of(es.push(e), sel) == (
            counter_totals_of(es, sel).0 + counter_value(e.rx),
            counter_totals_of(es, sel).1 + counter_value(e.tx),
        ),
        !iface_selected(sel, e.name@) ==> counter_totals_of(es.push(e), sel) == counter_totals_of(
            es,
            sel,
        ),
{
    assert(es.push(e).drop_last() =~= es);
}

/// A counter file that holds a number (surrounding whitespace aside)
/// counts as that number.
pub proof fn law_counter_value(t: String, k: u64)
    requires
        parse_u64(trim(t@)) == Some(k),
    ensures
        counter_value(Some(t)) == k,
        counter_value(None) == 0,
{
}

// ---------------------------------------------------------------------------
// The battery segment
// ---------------------------------------------------------------------------

/// The lightning sign is shown for the status `Charging` and for no other:
/// any other status, or none, shows just the charge and `%`; an unknown
/// charge shows `N/A`.
pub proof fn law_battery_segment_sign(c: u8, s: Seq<char>)
    ensures
        s != "Charging"@ ==> battery_segment(Some(c), Some(s)) == decimal(c as nat) + "%"@,
        battery_segment(Some(c), Some("Charging"@)) == "⚡"@ + decimal(c as nat) + "%"@,
        battery_segment(Some(c), None) == decimal(c as nat) + "%"@,
        battery_segment(None, Some(s)) == "N/A"@,
{
}

} // verus!
