//! Properties that relate several operations of the library.
use vstd::prelude::*;
use crate::cpu_load::{load_step, usage_defined, usage_percent, CpuStats, LoadDelta};
use crate::logfile::{pair_of, pair_text};
use crate::network::{kbps, leading_pair, speed_defined, NetStats};
use crate::number::{
    all_digits, decimal, decimal_value, digit_char, digit_value, is_digit, parse_u64,
    unsigned_digits,
};
use crate::text::{is_ws, lemma_split_pieces_len, non_empty_piece, split_pieces, words, ws_sep};

verus! {

broadcast use vstd::seq_lib::group_seq_properties;

proof fn lemma_digit_char(d: nat)
    requires
        d < 10,
    ensures
        is_digit(digit_char(d)),
        digit_value(digit_char(d)) == d,
        !is_ws(digit_char(d)),
        digit_char(d) != '+',
{
    assert(((d + 0x30) as u32) as char as u32 == (d + 0x30) as u32);
}

/// The decimal text of a number is one or more digits that are worth the
/// number, with no whitespace and no sign in it.
pub proof fn lemma_decimal(n: nat)
    ensures
        decimal(n).len() > 0,
        all_digits(decimal(n)),
        decimal_value(decimal(n)) == n,
        forall|i: int| 0 <= i < decimal(n).len() ==> !is_ws(#[trigger] decimal(n)[i]),
        decimal(n)[0] != '+',
    decreases n,
{
    if n < 10 {
        lemma_digit_char(n);
        assert(decimal(n).drop_last() =~= Seq::<char>::empty());
        assert(decimal_value(Seq::<char>::empty()) == 0);
        assert(decimal_value(decimal(n)) == decimal_value(decimal(n).drop_last()) * 10
            + digit_value(decimal(n).last()));
    } else {
        lemma_decimal(n / 10);
        lemma_digit_char(n % 10);
        let d = decimal(n);
        assert(d.drop_last() =~= decimal(n / 10));
        assert(d.last() == digit_char(n % 10));
        assert((n / 10) * 10 + n % 10 == n) by (nonlinear_arith);
        assert(decimal_value(d) == decimal_value(d.drop_last()) * 10 + digit_value(d.last()));
        assert forall|i: int| 0 <= i < d.len() implies is_digit(#[trigger] d[i]) && !is_ws(d[i]) by {
            if i < d.len() - 1 {
                assert(d[i] == decimal(n / 10)[i]);
            }
        }
    }
}

/// Reading back the decimal text of a number gives the number.
pub proof fn law_parse_reads_decimal(n: u64)
    ensures
        parse_u64(decimal(n as nat)) == Some(n),
{
    lemma_decimal(n as nat);
    assert(unsigned_digits(decimal(n as nat)) == decimal(n as nat));
}

/// Appending characters that are no separator extends the last piece.
proof fn lemma_split_append_plain(p: Seq<char>, t: Seq<char>)
    requires
        forall|i: int| 0 <= i < t.len() ==> !is_ws(#[trigger] t[i]),
    ensures
        split_pieces(p + t, ws_sep()) == ({
            let q = split_pieces(p, ws_sep());
            q.update(q.len() - 1, q.last() + t)
        }),
    decreases t.len(),
{
    let q = split_pieces(p, ws_sep());
    lemma_split_pieces_len(p, ws_sep());
    if t.len() == 0 {
        assert(p + t =~= p);
        assert(q.last() + t =~= q.last());
        assert(q.update(q.len() - 1, q.last()) =~= q);
    } else {
        let t0 = t.drop_last();
        assert forall|i: int| 0 <= i < t0.len() implies !is_ws(#[trigger] t0[i]) by {
            assert(t0[i] == t[i]);
        }
        lemma_split_append_plain(p, t0);
        assert((p + t).drop_last() =~= p + t0);
        assert((p + t).last() == t.last());
        assert(!is_ws(t[t.len() - 1]));
        lemma_split_pieces_len(p + t0, ws_sep());
        assert((q.last() + t0).push(t.last()) =~= q.last() + t);
        assert(split_pieces(p + t, ws_sep()) =~= q.update(q.len() - 1, q.last() + t));
    }
}

/// The words of two plain words with one space between them are those two
/// words.
proof fn lemma_words_of_two(a: Seq<char>, b: Seq<char>)
    requires
        a.len() > 0,
        b.len() > 0,
        forall|i: int| 0 <= i < a.len() ==> !is_ws(#[trigger] a[i]),
        forall|i: int| 0 <= i < b.len() ==> !is_ws(#[trigger] b[i]),
    ensures
        words(a + seq![' '] + b) == seq![a, b],
{
    let e = Seq::<char>::empty();
    lemma_split_append_plain(e, a);
    assert(e + a =~= a);
    let pa = split_pieces(a, ws_sep());
    assert(pa =~= seq![a]);
    let a1 = a + seq![' '];
    assert(a1.drop_last() =~= a);
    assert(split_pieces(a1, ws_sep()) =~= seq![a, e]);
    lemma_split_append_plain(a1, b);
    let all = split_pieces(a1 + b, ws_sep());
    assert(all =~= seq![a, b]);
    let f = non_empty_piece();
    reveal(Seq::filter);
    assert(seq![a, b].drop_last() =~= seq![a]);
    assert(seq![a].drop_last() =~= Seq::<Seq<char>>::empty());
    assert(Seq::<Seq<char>>::empty().filter(f) =~= Seq::<Seq<char>>::empty());
    assert(seq![a].filter(f) =~= seq![a]);
    assert(seq![a, b].filter(f) =~= seq![a, b]);
}

/// A state file reads back the pair it was written with, whether it is read
/// as a pair or word by word.
pub proof fn law_state_file_round_trip(a: u64, b: u64)
    ensures
        pair_of(pair_text(a, b)) == (a, b),
        leading_pair(pair_text(a, b)) == (a, b),
{
    lemma_decimal(a as nat);
    lemma_decimal(b as nat);
    lemma_words_of_two(decimal(a as nat), decimal(b as nat));
    law_parse_reads_decimal(a);
    law_parse_reads_decimal(b);
}

/// The CPU reading kept in the state file is read back unchanged.
pub proof fn law_cpu_stats_persist(s: CpuStats)
    ensures
        pair_of(pair_text(s.total, s.idle)) == (s.total, s.idle),
{
    law_state_file_round_trip(s.total, s.idle);
}

/// The network totals kept in a state file are read back unchanged.
pub proof fn law_net_stats_persist(s: NetStats)
    ensures
        pair_of(pair_text(s.rx_bytes, s.tx_bytes)) == (s.rx_bytes, s.tx_bytes),
        leading_pair(pair_text(s.rx_bytes, s.tx_bytes)) == (s.rx_bytes, s.tx_bytes),
{
    law_state_file_round_trip(s.rx_bytes, s.tx_bytes);
}

/// A load meter that takes the same reading twice reports no load the
/// second time and keeps its baseline.
pub proof fn law_repeated_reading_no_load(base: (u64, u64), idle: nat, total: nat)
    requires
        idle <= u64::MAX,
        total <= u64::MAX,
    ensures
        ({
            let after = load_step(base, Some((idle, total))).1;
            load_step(after, Some((idle, total))) == (
                Ok::<LoadDelta, crate::cpu_load::StatError>(
                    LoadDelta { idle_delta: 0, total_delta: 0 },
                ),
                after,
            )
        }),
{
}

/// Two identical CPU readings give zero usage.
pub proof fn law_same_reading_zero_usage(s: CpuStats)
    ensures
        usage_defined(s, s),
        usage_percent(s, s) == 0,
{
}

/// Usage is a percentage: never above one hundred.
pub proof fn law_usage_at_most_hundred(now: CpuStats, before: CpuStats)
    requires
        usage_defined(now, before),
    ensures
        0 <= usage_percent(now, before) <= 100,
{
    let dt = now.total - before.total;
    let di = now.idle - before.idle;
    if dt > 0 {
        assert(0 <= (dt - di) * 100 / dt <= 100) by (nonlinear_arith)
            requires
                0 <= di <= dt,
                dt > 0,
        ;
    }
}

/// Identical network totals give zero speed.
pub proof fn law_same_totals_zero_speed(s: NetStats)
    ensures
        speed_defined(s, s),
        kbps((s.rx_bytes - s.rx_bytes) as nat) == 0,
        kbps((s.tx_bytes - s.tx_bytes) as nat) == 0,
{
}

} // verus!
