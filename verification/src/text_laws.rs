//! Properties of the text and number primitives over all inputs.
use vstd::prelude::*;
use crate::laws::lemma_decimal;
use crate::number::{decimal, is_digit, parse_i32, parse_u64, unsigned_digits};
use crate::segment_laws::{lemma_plain_piece, lemma_split_after};
use crate::text::{
    is_char, is_ws, lemma_split_pieces_len, lines, non_empty_piece, split_at_char, split_pieces,
    strip_cr, trim, trim_end, trim_start, words, ws_sep,
};

verus! {

broadcast use vstd::seq_lib::group_seq_properties;

proof fn lemma_trim_start_shape(s: Seq<char>)
    ensures
        trim_start(s) == s.skip(s.len() - trim_start(s).len()),
        trim_start(s).len() <= s.len(),
        forall|i: int| 0 <= i < s.len() - trim_start(s).len() ==> is_ws(#[trigger] s[i]),
        trim_start(s).len() > 0 ==> !is_ws(trim_start(s)[0]),
    decreases s.len(),
{
    if s.len() > 0 && is_ws(s[0]) {
        let t = s.drop_first();
        lemma_trim_start_shape(t);
        assert(t.skip(t.len() - trim_start(t).len()) =~= s.skip(s.len() - trim_start(t).len()));
        assert forall|i: int| 0 <= i < s.len() - trim_start(s).len() implies is_ws(
            #[trigger] s[i],
        ) by {
            if i > 0 {
                assert(s[i] == t[i - 1]);
            }
        }
    } else {
        assert(s.skip(0) =~= s);
    }
}

proof fn lemma_trim_end_shape(s: Seq<char>)
    ensures
        trim_end(s) == s.take(trim_end(s).len() as int),
        trim_end(s).len() <= s.len(),
        forall|i: int| trim_end(s).len() <= i < s.len() ==> is_ws(#[trigger] s[i]),
        trim_end(s).len() > 0 ==> !is_ws(trim_end(s).last()),
    decreases s.len(),
{
    if s.len() > 0 && is_ws(s.last()) {
        let t = s.drop_last();
        lemma_trim_end_shape(t);
        assert(t.take(trim_end(t).len() as int) =~= s.take(trim_end(t).len() as int));
        assert forall|i: int| trim_end(s).len() <= i < s.len() implies is_ws(#[trigger] s[i]) by {
            if i < s.len() - 1 {
                assert(s[i] == t[i]);
            }
        }
    } else {
        assert(s.take(s.len() as int) =~= s);
    }
}

/// Trimming keeps a contiguous part of the text: everything before it and
/// after it is whitespace, and it neither starts nor ends with whitespace.
pub proof fn law_trim(s: Seq<char>) -> (r: (int, int))
    ensures
        0 <= r.0 <= r.1 <= s.len(),
        trim(s) == s.subrange(r.0, r.1),
        forall|i: int| 0 <= i < r.0 ==> is_ws(#[trigger] s[i]),
        forall|i: int| r.1 <= i < s.len() ==> is_ws(#[trigger] s[i]),
        r.0 < r.1 ==> !is_ws(s[r.0]) && !is_ws(s[r.1 - 1]),
{
    lemma_trim_start_shape(s);
    let a = s.len() - trim_start(s).len();
    let t = trim_start(s);
    lemma_trim_end_shape(t);
    let b = a + trim_end(t).len();
    assert(trim(s) =~= s.subrange(a, b));
    assert forall|i: int| b <= i < s.len() implies is_ws(#[trigger] s[i]) by {
        assert(s[i] == t[i - a]);
    }
    if a < b {
        assert(s[a] == trim(s)[0]);
        if trim_end(t).len() > 0 && t.len() > 0 {
            assert(trim_end(t)[0] == t[0]);
        }
        assert(s[b - 1] == trim(s).last());
    }
    (a, b)
}

proof fn lemma_pieces_have_no_sep(s: Seq<char>, sep: spec_fn(char) -> bool)
    ensures
        forall|i: int, j: int|
            0 <= i < split_pieces(s, sep).len() && 0 <= j < split_pieces(s, sep)[i].len() ==> !sep(
                #[trigger] split_pieces(s, sep)[i][j],
            ),
    decreases s.len(),
{
    if s.len() > 0 {
        lemma_pieces_have_no_sep(s.drop_last(), sep);
        lemma_split_pieces_len(s.drop_last(), sep);
        let p = split_pieces(s.drop_last(), sep);
        let q = split_pieces(s, sep);
        assert forall|i: int, j: int| 0 <= i < q.len() && 0 <= j < q[i].len() implies !sep(
            #[trigger] q[i][j],
        ) by {
            if !sep(s.last()) && i == p.len() - 1 && j == q[i].len() - 1 {
                assert(q[i][j] == s.last());
            } else if !sep(s.last()) && i == p.len() - 1 {
                assert(q[i][j] == p[i][j]);
            } else if i < p.len() {
                assert(q[i] == p[i]);
            }
        }
    }
}

/// Every word is non-empty and holds no whitespace.
pub proof fn law_words_are_plain(s: Seq<char>, i: int, j: int)
    requires
        0 <= i < words(s).len(),
        0 <= j < words(s)[i].len(),
    ensures
        words(s)[i].len() > 0,
        !is_ws(words(s)[i][j]),
{
    let p = split_pieces(s, ws_sep());
    let f = non_empty_piece();
    p.lemma_filter_pred(f, i);
    let w = p.filter(f)[i];
    assert(p.filter(f).contains(w));
    p.lemma_filter_contains_rev(f, w);
    let k = choose|k: int| 0 <= k < p.len() && p[k] == w;
    lemma_pieces_have_no_sep(s, ws_sep());
    assert(p[k][j] == w[j]);
}

/// A non-empty text without whitespace is one word.
pub proof fn law_single_word(s: Seq<char>)
    requires
        s.len() > 0,
        forall|i: int| 0 <= i < s.len() ==> !is_ws(#[trigger] s[i]),
    ensures
        words(s) == seq![s],
{
    let sep = ws_sep();
    assert(split_pieces(s, sep) =~= seq![s]) by {
        lemma_one_piece(s);
    }
    reveal(Seq::filter);
    let f = non_empty_piece();
    assert(seq![s].drop_last() =~= Seq::<Seq<char>>::empty());
    assert(Seq::<Seq<char>>::empty().filter(f) =~= Seq::<Seq<char>>::empty());
    assert(seq![s].filter(f) =~= seq![s]);
}

proof fn lemma_one_piece(s: Seq<char>)
    requires
        forall|i: int| 0 <= i < s.len() ==> !is_ws(#[trigger] s[i]),
    ensures
        split_pieces(s, ws_sep()) == seq![s],
    decreases s.len(),
{
    if s.len() > 0 {
        let s0 = s.drop_last();
        assert forall|i: int| 0 <= i < s0.len() implies !is_ws(#[trigger] s0[i]) by {
            assert(s0[i] == s[i]);
        }
        lemma_one_piece(s0);
        assert(s0.push(s.last()) =~= s);
        assert(!is_ws(s[s.len() - 1]));
        assert(seq![s0].update(0, s0.push(s.last())) =~= seq![s]);
    } else {
        assert(s =~= Seq::<char>::empty());
    }
}

/// A line without a line feed, followed by one, is the first line (its
/// carriage return before the line feed dropped); when nothing follows it
/// is the only line. A text without line feed is one line, unchanged.
pub proof fn law_first_line(a: Seq<char>, rest: Seq<char>)
    requires
        forall|i: int| 0 <= i < a.len() ==> a[i] != '\n',
    ensures
        lines(a + seq!['\n'] + rest)[0] == strip_cr(a),
        lines(a + seq!['\n']) == seq![strip_cr(a)],
        a.len() > 0 ==> lines(a) == seq![a],
{
    let s = a + seq!['\n'] + rest;
    lemma_split_after(a, '\n', rest);
    lemma_split_pieces_len(rest, is_char('\n'));
    let p = split_at_char(s, '\n');
    assert(p.drop_last()[0] == a);
    let e = Seq::<char>::empty();
    lemma_split_after(a, '\n', e);
    assert(a + seq!['\n'] + e =~= a + seq!['\n']);
    assert(split_at_char(e, '\n') == seq![e]);
    let p2 = split_at_char(a + seq!['\n'], '\n');
    assert(p2 =~= seq![a, e]);
    assert(p2.drop_last() =~= seq![a]);
    assert(p2.drop_last().map_values(|l: Seq<char>| strip_cr(l)) =~= seq![strip_cr(a)]);
    lemma_plain_piece(a, '\n');
    if a.len() > 0 {
        let p3 = split_at_char(a, '\n');
        assert(p3.drop_last() =~= Seq::<Seq<char>>::empty());
        assert(a.last() != '\n');
        assert(p3.drop_last().map_values(|l: Seq<char>| strip_cr(l)).push(p3.last()) =~= seq![a]);
    }
}

/// A number read with a leading `+` is the number; text that is not all
/// digits after an optional `+` is no number.
pub proof fn law_parse_u64(n: u64, s: Seq<char>, k: int)
    requires
        0 <= k < unsigned_digits(s).len(),
        !is_digit(unsigned_digits(s)[k]),
    ensures
        parse_u64(seq!['+'] + decimal(n as nat)) == Some(n),
        parse_u64(s) is None,
        parse_u64(Seq::<char>::empty()) is None,
        parse_u64(seq!['+']) is None,
{
    lemma_decimal(n as nat);
    let t = seq!['+'] + decimal(n as nat);
    assert(t.drop_first() =~= decimal(n as nat));
    assert(seq!['+'].drop_first() =~= Seq::<char>::empty());
}

/// A minus sign before the digits negates the number, down to `i32::MIN`.
pub proof fn law_parse_i32_negative(n: nat)
    requires
        n <= 0x8000_0000,
    ensures
        parse_i32(seq!['-'] + decimal(n)) == Some((0 - n) as i32),
        n <= i32::MAX ==> parse_i32(decimal(n)) == Some(n as i32),
{
    lemma_decimal(n);
    let t = seq!['-'] + decimal(n);
    assert(t.drop_first() =~= decimal(n));
    assert(is_digit(decimal(n)[0]));
    assert(unsigned_digits(decimal(n)) == decimal(n));
}

} // verus!
