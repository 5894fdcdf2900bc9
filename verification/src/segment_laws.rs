//! Properties of the battery, memory, temperature and address readings
//! over all inputs.
use vstd::prelude::*;
use crate::battery::{
    battery_info_text, battery_scan, battery_text, charge_of, low_battery_body, status_indicator,
    status_of, SupplyReading,
};
use crate::ip::{address_or_na, word_after_src};
use crate::status::status_line_of;
use crate::json::{entry_index, first_prefsrc_of, Json};
use crate::memory::low_memory_body;
use crate::number::{all_digits, decimal, decimal_value, is_digit, parse_i32, signed_decimal};
use crate::temperature::{
    coretemp_of, degrees_of, first_readable_input, is_cpu_zone, is_temp_input, sensors_line,
    sensors_temp_of, temperature_segment, to_degrees, TempFile,
};
use crate::text::{
    contains, lemma_split_pieces_len, occurs_at, split_at_char, split_pieces, starts_with, trim,
    is_char,
};

verus! {

broadcast use vstd::seq_lib::group_seq_properties;

// ---------------------------------------------------------------------------
// Battery
// ---------------------------------------------------------------------------

/// The battery segment shows `Full` for the status `Full` only; any other
/// status shows the charge followed by `%%`.
pub proof fn law_battery_text(charge: i32, status: Seq<char>)
    ensures
        battery_text(charge, "Full"@) == "Full"@,
        status != "Full"@ ==> battery_text(charge, status) == signed_decimal(charge as int)
            + "%%"@,
{
}

/// The charge is the capacity file's number, surrounding whitespace aside;
/// a file that holds no number, or could not be read, counts as zero. The
/// status is the status file's text without surrounding whitespace.
pub proof fn law_battery_readings(t: Seq<char>, v: i32)
    ensures
        parse_i32(trim(t)) == Some(v) ==> charge_of(Some(t)) == v,
        parse_i32(trim(t)) is None ==> charge_of(Some(t)) == 0,
        charge_of(None) == 0,
        status_of(Some(t)) == trim(t),
        status_of(None) == Seq::<char>::empty(),
{
}

/// A low-battery notification reads `剩余电量：` followed by the charge and
/// `%`.
pub proof fn law_low_battery_body(charge: i32)
    ensures
        low_battery_body(charge) == "剩余电量："@ + signed_decimal(charge as int) + "%"@,
{
}

/// The three known states show no indicator; anything else shows
/// `battery error`.
pub proof fn law_status_indicator(t: Seq<char>)
    ensures
        status_indicator("Charging"@) == Seq::<char>::empty(),
        status_indicator("Discharging"@) == Seq::<char>::empty(),
        status_indicator("Full"@) == Seq::<char>::empty(),
        (t != "Charging"@ && t != "Discharging"@ && t != "Full"@) ==> status_indicator(t)
            == "battery error"@,
{
}

/// A battery shows its indicator, its charge and `%`; no battery shows
/// `N/A`.
pub proof fn law_battery_info_text(c: u8, s: Seq<char>)
    ensures
        battery_info_text((c, "N/A"@)) == "N/A"@,
        s != "N/A"@ ==> battery_info_text((c, s)) == s + decimal(c as nat) + "%"@,
{
}

/// An entry that is no battery changes nothing; a capacity or status once
/// found is kept whatever entries follow.
pub proof fn law_battery_scan_step(es: Seq<SupplyReading>, e: SupplyReading)
    ensures
        !starts_with(e.name@, "BAT"@) ==> battery_scan(es.push(e)) == battery_scan(es),
        battery_scan(es).0 is Some ==> battery_scan(es.push(e)).0 == battery_scan(es).0,
        battery_scan(es).1 is Some ==> battery_scan(es.push(e)).1 == battery_scan(es).1,
{
    assert(es.push(e).drop_last() =~= es);
}

// ---------------------------------------------------------------------------
// Memory
// ---------------------------------------------------------------------------

/// A low-memory notification reads `可用内存：` followed by the megabytes and
/// `MB`.
pub proof fn law_low_memory_body(mb: u64)
    ensures
        low_memory_body(mb) == "可用内存："@ + decimal(mb as nat) + "MB"@,
{
}

// ---------------------------------------------------------------------------
// Temperature
// ---------------------------------------------------------------------------

/// Degrees are millidegrees divided by 1000, rounded toward zero.
pub proof fn law_to_degrees(t: i32)
    ensures
        t >= 0 ==> 0 <= to_degrees(t) * 1000 <= t < to_degrees(t) * 1000 + 1000,
        t < 0 ==> to_degrees(t) * 1000 - 1000 < t <= to_degrees(t) * 1000 <= 0,
{
    if t >= 0 {
        assert(0 <= (t / 1000) * 1000 <= t < (t / 1000) * 1000 + 1000) by (nonlinear_arith)
            requires
                t >= 0,
        ;
    } else {
        let m = 0 - t;
        assert(0 <= (m / 1000) * 1000 <= m < (m / 1000) * 1000 + 1000) by (nonlinear_arith)
            requires
                m > 0,
        ;
    }
}

/// Files that are no readable temperature input are skipped; the first
/// readable one decides.
pub proof fn law_coretemp_first_input(f: TempFile, rest: Seq<TempFile>)
    ensures
        !(is_temp_input(f.name@) && f.content is Some) ==> coretemp_of(seq![f] + rest)
            == coretemp_of(rest),
        (is_temp_input(f.name@) && f.content is Some) ==> coretemp_of(seq![f] + rest) == Some(
            degrees_of(f.content->0@),
        ),
{
    let s = seq![f] + rest;
    assert(s[0] == f);
    assert(s.drop_first() =~= rest);
    lemma_first_readable_in_range(rest);
}

proof fn lemma_first_readable_in_range(fs: Seq<TempFile>)
    ensures
        first_readable_input(fs) matches Some(i) ==> 0 <= i < fs.len(),
    decreases fs.len(),
{
    if fs.len() > 0 {
        lemma_first_readable_in_range(fs.drop_first());
    }
}

/// Splitting `x + c + z` at `c`, when `x` holds no `c`, gives `x` and then
/// the pieces of `z`.
pub proof fn lemma_split_after(x: Seq<char>, c: char, z: Seq<char>)
    requires
        forall|i: int| 0 <= i < x.len() ==> x[i] != c,
    ensures
        split_at_char(x + seq![c] + z, c) == seq![x] + split_at_char(z, c),
    decreases z.len(),
{
    let sep = is_char(c);
    if z.len() == 0 {
        lemma_plain_piece(x, c);
        assert((x + seq![c] + z).drop_last() =~= x);
        assert(split_pieces(x + seq![c] + z, sep) =~= seq![x, Seq::<char>::empty()]);
    } else {
        let z0 = z.drop_last();
        lemma_split_after(x, c, z0);
        lemma_split_pieces_len(z0, sep);
        assert((x + seq![c] + z).drop_last() =~= x + seq![c] + z0);
        assert((x + seq![c] + z).last() == z.last());
        let p = split_pieces(z0, sep);
        if z.last() == c {
            assert((seq![x] + p).push(Seq::<char>::empty()) =~= seq![x] + p.push(
                Seq::<char>::empty(),
            ));
        } else {
            assert((seq![x] + p).update(p.len() as int, p.last().push(z.last())) =~= seq![x]
                + p.update(p.len() - 1, p.last().push(z.last())));
        }
    }
}

/// A sequence with no `c` in it is one piece.
pub proof fn lemma_plain_piece(x: Seq<char>, c: char)
    requires
        forall|i: int| 0 <= i < x.len() ==> x[i] != c,
    ensures
        split_at_char(x, c) == seq![x],
    decreases x.len(),
{
    if x.len() > 0 {
        let x0 = x.drop_last();
        lemma_plain_piece(x0, c);
        assert(x0.push(x.last()) =~= x);
        assert(x.last() != c);
        assert(seq![x0].update(0, x0.push(x.last())) =~= seq![x]);
    } else {
        assert(x =~= Seq::<char>::empty());
    }
}

/// The first piece of `x + z`, when `x` holds no `c`, is `x` followed by
/// the first piece of `z`.
proof fn lemma_first_piece(x: Seq<char>, c: char, z: Seq<char>)
    requires
        forall|i: int| 0 <= i < x.len() ==> x[i] != c,
    ensures
        split_at_char(x + z, c).len() == split_at_char(z, c).len(),
        split_at_char(x + z, c)[0] == x + split_at_char(z, c)[0],
    decreases z.len(),
{
    let sep = is_char(c);
    if z.len() == 0 {
        lemma_plain_piece(x, c);
        assert(x + z =~= x);
        assert(x + Seq::<char>::empty() =~= x);
    } else {
        let z0 = z.drop_last();
        lemma_first_piece(x, c, z0);
        lemma_split_pieces_len(z0, sep);
        lemma_split_pieces_len(x + z0, sep);
        assert((x + z).drop_last() =~= x + z0);
        assert((x + z).last() == z.last());
        let p = split_pieces(z0, sep);
        if z.last() != c && p.len() == 1 {
            assert((x + p[0]).push(z.last()) =~= x + p[0].push(z.last()));
        }
    }
}

/// A `sensors` line that names `Package id 0:` before its first `+`, which
/// is followed by digits and a `.`, gives the number those digits write.
pub proof fn law_sensors_package_line(
    l: Seq<char>,
    p: Seq<char>,
    d: Seq<char>,
    q: Seq<char>,
)
    requires
        l == p + seq!['+'] + d + seq!['.'] + q,
        contains(p, "Package id 0:"@),
        forall|i: int| 0 <= i < p.len() ==> p[i] != '+',
        d.len() > 0,
        all_digits(d),
        decimal_value(d) <= i32::MAX,
    ensures
        sensors_line(l) == Some(Some(decimal_value(d) as i32)),
{
    let label = "Package id 0:"@;
    let k = choose|k: int| occurs_at(p, label, k);
    assert(l.subrange(k, k + label.len()) =~= p.subrange(k, k + label.len()));
    assert(occurs_at(l, label, k));
    let y = d + seq!['.'] + q;
    assert(l =~= p + seq!['+'] + y);
    lemma_split_after(p, '+', y);
    let dd = d + seq!['.'];
    assert forall|i: int| 0 <= i < dd.len() implies dd[i] != '+' by {
        if i < d.len() {
            assert(is_digit(d[i]));
        }
    }
    assert(y =~= dd + q);
    lemma_first_piece(dd, '+', q);
    let piece = split_at_char(y, '+')[0];
    let rest = split_at_char(q, '+')[0];
    assert(piece =~= d + (seq!['.'] + rest));
    assert forall|i: int| 0 <= i < d.len() implies d[i] != '.' by {
        assert(is_digit(d[i]));
    }
    lemma_first_piece(d, '.', seq!['.'] + rest);
    let e = Seq::<char>::empty();
    lemma_split_after(e, '.', rest);
    assert(e + seq!['.'] + rest =~= seq!['.'] + rest);
    assert(split_at_char(piece, '.')[0] =~= d);
    assert(is_digit(d[0]));
}

/// Lines that decide nothing are skipped; the first deciding line gives the
/// temperature.
pub proof fn law_sensors_first_deciding_line(l: Seq<char>, rest: Seq<Seq<char>>)
    ensures
        sensors_line(l) is None ==> sensors_temp_of(seq![l] + rest) == sensors_temp_of(rest),
        sensors_line(l) matches Some(t) ==> sensors_temp_of(seq![l] + rest) == t,
{
    let s = seq![l] + rest;
    assert(s[0] == l);
    assert(s.drop_first() =~= rest);
}

// ---------------------------------------------------------------------------
// Addresses
// ---------------------------------------------------------------------------

/// The address is the word right after the first word `src`.
pub proof fn law_word_after_first_src(
    pre: Seq<Seq<char>>,
    a: Seq<char>,
    post: Seq<Seq<char>>,
)
    requires
        forall|i: int| 0 <= i < pre.len() ==> pre[i] != "src"@,
    ensures
        word_after_src(pre + seq!["src"@, a] + post) == Some(a),
    decreases pre.len(),
{
    let s = pre + seq!["src"@, a] + post;
    if pre.len() == 0 {
        assert(s[0] == "src"@);
        assert(s[1] == a);
    } else {
        assert(s[0] == pre[0]);
        assert(s.drop_first() =~= pre.drop_first() + seq!["src"@, a] + post);
        law_word_after_first_src(pre.drop_first(), a, post);
    }
}

/// Words none of which is `src` give no address.
pub proof fn law_no_src_word(ws: Seq<Seq<char>>)
    requires
        forall|i: int| 0 <= i < ws.len() ==> ws[i] != "src"@,
    ensures
        word_after_src(ws) is None,
    decreases ws.len(),
{
    if ws.len() > 0 {
        law_no_src_word(ws.drop_first());
    }
}

proof fn lemma_entry_index_first(
    pre: Seq<(String, Json)>,
    e: (String, Json),
    post: Seq<(String, Json)>,
    key: Seq<char>,
)
    requires
        e.0@ == key,
        forall|i: int| 0 <= i < pre.len() ==> pre[i].0@ != key,
    ensures
        entry_index(pre + seq![e] + post, key) == Some(pre.len() as int),
    decreases pre.len(),
{
    let s = pre + seq![e] + post;
    if pre.len() == 0 {
        assert(s[0] == e);
    } else {
        assert(s[0] == pre[0]);
        assert(s.drop_first() =~= pre.drop_first() + seq![e] + post);
        lemma_entry_index_first(pre.drop_first(), e, post, key);
    }
}

/// The address in `ip -j` output is the string under the first `prefsrc`
/// key of the first route; a route list whose first route has a different
/// kind of `prefsrc` value gives none.
pub proof fn law_json_first_route_prefsrc(
    v: Json,
    first: Json,
    pre: Seq<(String, Json)>,
    k: String,
    x: Json,
    post: Seq<(String, Json)>,
)
    requires
        v matches Json::Array(items) && items@.len() > 0 && items@[0] == first,
        first matches Json::Object(entries) && entries@ == pre + seq![(k, x)] + post,
        k@ == "prefsrc"@,
        forall|i: int| 0 <= i < pre.len() ==> pre[i].0@ != "prefsrc"@,
    ensures
        (x matches Json::Str(s)) ==> first_prefsrc_of(v) == Some(x->Str_0@),
        !(x is Str) ==> first_prefsrc_of(v) is None,
{
    lemma_entry_index_first(pre, (k, x), post, "prefsrc"@);
    assert((pre + seq![(k, x)] + post)[pre.len() as int] == (k, x));
}

// ---------------------------------------------------------------------------
// Segment texts
// ---------------------------------------------------------------------------

/// The temperature segment is the degrees and `°`, or `N/A` when unknown.
pub proof fn law_temperature_segment(d: i32)
    ensures
        temperature_segment(Some(d)) == signed_decimal(d as int) + "°"@,
        temperature_segment(None) == "N/A"@,
{
}

/// A thermal zone counts for the CPU when its name starts with
/// `thermal_zone` and its type names `x86_pkg_temp` or `cpu` anywhere; a
/// zone whose type could not be read never counts, nor does any other name.
pub proof fn law_cpu_zone(name: Seq<char>, t: Seq<char>)
    ensures
        starts_with(name, "thermal_zone"@) && contains(t, "cpu"@) ==> is_cpu_zone(name, Some(t)),
        starts_with(name, "thermal_zone"@) && contains(t, "x86_pkg_temp"@) ==> is_cpu_zone(
            name,
            Some(t),
        ),
        !contains(t, "cpu"@) && !contains(t, "x86_pkg_temp"@) ==> !is_cpu_zone(name, Some(t)),
        !is_cpu_zone(name, None),
        !starts_with(name, "thermal_zone"@) ==> !is_cpu_zone(name, Some(t)),
{
}

/// A temperature file holding a number of millidegrees (whitespace aside)
/// gives that many degrees, rounded toward zero; other text gives none.
pub proof fn law_degrees_of(text: Seq<char>, t: i32)
    ensures
        parse_i32(trim(text)) == Some(t) ==> degrees_of(text) == Some(to_degrees(t)),
        parse_i32(trim(text)) is None ==> degrees_of(text) is None,
{
}

/// The address segment is the address, or `N/A` when there is none.
pub proof fn law_address_or_na(a: Seq<char>)
    ensures
        address_or_na(Some(a)) == a,
        address_or_na(None) == "N/A"@,
{
}

/// The status line: a space, memory in MiB, a space, the CPU percentage
/// and `% `, the temperature, ` ↑` and the upload speed with `K ↓`, the
/// download speed with `K `, the battery, a space, the time and a space.
pub proof fn law_status_line(
    mem: u64,
    cpu: u8,
    temp: Seq<char>,
    tx: u64,
    rx: u64,
    bat: Seq<char>,
    time: Seq<char>,
)
    ensures
        status_line_of(mem, cpu, temp, tx, rx, bat, time) == seq![' '] + decimal(mem as nat)
            + seq![' '] + decimal(cpu as nat) + seq!['%', ' '] + temp + seq![' ', '↑'] + decimal(
            tx as nat,
        ) + seq!['K', ' ', '↓'] + decimal(rx as nat) + seq!['K', ' '] + bat + seq![' '] + time
            + seq![' '],
{
    reveal_strlit(" ");
    reveal_strlit("% ");
    reveal_strlit(" ↑");
    reveal_strlit("K ↓");
    reveal_strlit("K ");
    assert(" "@ =~= seq![' ']);
    assert("% "@ =~= seq!['%', ' ']);
    assert(" ↑"@ =~= seq![' ', '↑']);
    assert("K ↓"@ =~= seq!['K', ' ', '↓']);
    assert("K "@ =~= seq!['K', ' ']);
}

} // verus!
