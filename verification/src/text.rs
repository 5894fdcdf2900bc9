//! Text primitives over sequences of characters: whitespace, trimming,
//! splitting into pieces, words and lines, prefix and substring tests.
//!
//! Each executable function is stated against a spec function that says, as
//! directly as possible, what the corresponding operation on `str` yields.
use vstd::prelude::*;

verus! {

broadcast use vstd::seq_lib::group_seq_properties;

// ---------------------------------------------------------------------------
// Specifications
// ---------------------------------------------------------------------------

/// The Unicode `White_Space` property, which `char::is_whitespace` tests.
pub open spec fn is_ws(c: char) -> bool {
    let u = c as u32;
    ||| 0x9 <= u <= 0xd
    ||| u == 0x20
    ||| u == 0x85
    ||| u == 0xa0
    ||| u == 0x1680
    ||| 0x2000 <= u <= 0x200a
    ||| u == 0x2028
    ||| u == 0x2029
    ||| u == 0x202f
    ||| u == 0x205f
    ||| u == 0x3000
}

/// `s` with its leading whitespace removed.
pub open spec fn trim_start(s: Seq<char>) -> Seq<char>
    decreases s.len(),
{
    if s.len() > 0 && is_ws(s[0]) {
        trim_start(s.drop_first())
    } else {
        s
    }
}

/// `s` with its trailing whitespace removed.
pub open spec fn trim_end(s: Seq<char>) -> Seq<char>
    decreases s.len(),
{
    if s.len() > 0 && is_ws(s.last()) {
        trim_end(s.drop_last())
    } else {
        s
    }
}

/// `s` with whitespace removed at both ends, as `str::trim` gives it.
pub open spec fn trim(s: Seq<char>) -> Seq<char> {
    trim_end(trim_start(s))
}

/// The pieces of `s` between the characters that satisfy `sep`, empty pieces
/// included, as `str::split` with a character predicate yields them. There is
/// always at least one piece.
pub open spec fn split_pieces(s: Seq<char>, sep: spec_fn(char) -> bool) -> Seq<Seq<char>>
    decreases s.len(),
{
    if s.len() == 0 {
        seq![Seq::<char>::empty()]
    } else {
        let p = split_pieces(s.drop_last(), sep);
        if sep(s.last()) {
            p.push(Seq::<char>::empty())
        } else {
            p.update(p.len() - 1, p.last().push(s.last()))
        }
    }
}

/// The separator test for splitting at one given character.
pub open spec fn is_char(c: char) -> spec_fn(char) -> bool {
    |x: char| x == c
}

/// Pieces of `s` between occurrences of `c` (`str::split(c)`).
pub open spec fn split_at_char(s: Seq<char>, c: char) -> Seq<Seq<char>> {
    split_pieces(s, is_char(c))
}

/// Whether a piece holds at least one character.
pub open spec fn non_empty(w: Seq<char>) -> bool {
    w.len() > 0
}

/// The separator test for splitting at whitespace.
pub open spec fn ws_sep() -> spec_fn(char) -> bool {
    |c: char| is_ws(c)
}

/// The filter that keeps the non-empty pieces.
pub open spec fn non_empty_piece() -> spec_fn(Seq<char>) -> bool {
    |w: Seq<char>| non_empty(w)
}

/// The whitespace-separated words of `s`: the pieces between whitespace
/// characters that are not empty (`str::split_whitespace`).
pub open spec fn words(s: Seq<char>) -> Seq<Seq<char>> {
    split_pieces(s, ws_sep()).filter(non_empty_piece())
}

/// `l` without one trailing carriage return.
pub open spec fn strip_cr(l: Seq<char>) -> Seq<char> {
    if l.len() > 0 && l.last() == '\r' {
        l.drop_last()
    } else {
        l
    }
}

/// The lines of `s` (`str::lines`): the pieces between line feeds; a
/// carriage return right before a line feed is dropped, and a final line feed
/// does not open a new, empty line.
pub open spec fn lines(s: Seq<char>) -> Seq<Seq<char>> {
    if s.len() == 0 {
        Seq::empty()
    } else {
        let p = split_at_char(s, '\n');
        let ended = p.drop_last().map_values(|l: Seq<char>| strip_cr(l));
        if s.last() == '\n' {
            ended
        } else {
            ended.push(p.last())
        }
    }
}

/// Whether `s` begins with `p`.
pub open spec fn starts_with(s: Seq<char>, p: Seq<char>) -> bool {
    p.len() <= s.len() && s.take(p.len() as int) == p
}

/// Whether `s` ends with `p`.
pub open spec fn ends_with(s: Seq<char>, p: Seq<char>) -> bool {
    p.len() <= s.len() && s.skip(s.len() - p.len()) == p
}

/// Whether `p` occurs in `s` at position `i`.
pub open spec fn occurs_at(s: Seq<char>, p: Seq<char>, i: int) -> bool {
    0 <= i && i + p.len() <= s.len() && s.subrange(i, i + p.len()) == p
}

/// Whether `p` occurs anywhere in `s` (`str::contains`).
pub open spec fn contains(s: Seq<char>, p: Seq<char>) -> bool {
    exists|i: int| occurs_at(s, p, i)
}

/// What follows the first occurrence of `c` in `s`, if `c` occurs
/// (`s.splitn(2, c).nth(1)`).
pub open spec fn after_first(s: Seq<char>, c: char) -> Option<Seq<char>>
    decreases s.len(),
{
    if s.len() == 0 {
        None
    } else if s[0] == c {
        Some(s.drop_first())
    } else {
        after_first(s.drop_first(), c)
    }
}

/// `s` with every leading repetition of `p` removed
/// (`str::trim_start_matches` with a string pattern).
pub open spec fn strip_prefixes(s: Seq<char>, p: Seq<char>) -> Seq<char>
    decreases s.len(),
{
    if p.len() > 0 && starts_with(s, p) {
        strip_prefixes(s.skip(p.len() as int), p)
    } else {
        s
    }
}

/// The characters of an optional string slice.
pub open spec fn opt_str_view(o: Option<&str>) -> Option<Seq<char>> {
    match o {
        Some(t) => Some(t@),
        None => None,
    }
}

/// The characters of an optional string.
pub open spec fn opt_string_view(o: Option<String>) -> Option<Seq<char>> {
    match o {
        Some(t) => Some(t@),
        None => None,
    }
}

/// The character sequences held by a sequence of character vectors.
pub open spec fn seqs_of(v: Seq<Vec<char>>) -> Seq<Seq<char>> {
    v.map_values(|x: Vec<char>| x@)
}

// ---------------------------------------------------------------------------
// Lemmas
// ---------------------------------------------------------------------------

pub proof fn lemma_split_pieces_len(s: Seq<char>, sep: spec_fn(char) -> bool)
    ensures
        split_pieces(s, sep).len() >= 1,
    decreases s.len(),
{
    if s.len() > 0 {
        lemma_split_pieces_len(s.drop_last(), sep);
    }
}

/// When no character before `a` is whitespace and `a` ends the string or is
/// not whitespace, trimming the start leaves `s.skip(a)`.
proof fn lemma_trim_start_at(s: Seq<char>, a: int)
    requires
        0 <= a <= s.len(),
        forall|j: int| 0 <= j < a ==> is_ws(#[trigger] s[j]),
        a == s.len() || !is_ws(s[a]),
    ensures
        trim_start(s) == s.skip(a),
    decreases a,
{
    if a == 0 {
        assert(s.skip(0) =~= s);
    } else {
        let t = s.drop_first();
        assert forall|j: int| 0 <= j < a - 1 implies is_ws(#[trigger] t[j]) by {
            assert(t[j] == s[j + 1]);
        }
        lemma_trim_start_at(t, a - 1);
        assert(t.skip(a - 1) =~= s.skip(a));
    }
}

/// When every character from `b` on is whitespace and `b` is 0 or follows a
/// character that is not whitespace, trimming the end leaves `s.take(b)`.
proof fn lemma_trim_end_at(s: Seq<char>, b: int)
    requires
        0 <= b <= s.len(),
        forall|j: int| b <= j < s.len() ==> is_ws(#[trigger] s[j]),
        b == 0 || !is_ws(s[b - 1]),
    ensures
        trim_end(s) == s.take(b),
    decreases s.len() - b,
{
    if b == s.len() {
        assert(s.take(b) =~= s);
    } else {
        let t = s.drop_last();
        assert forall|j: int| b <= j < t.len() implies is_ws(#[trigger] t[j]) by {
            assert(t[j] == s[j]);
        }
        lemma_trim_end_at(t, b);
        assert(t.take(b) =~= s.take(b));
    }
}

proof fn lemma_words_step(s: Seq<char>)
    requires
        s.len() > 0,
    ensures
        words(s) == ({
            let ws = split_pieces(s.drop_last(), ws_sep());
            let prev = words(s.drop_last());
            if is_ws(s.last()) {
                prev
            } else if non_empty(ws.last()) {
                prev.update(prev.len() - 1, ws.last().push(s.last()))
            } else {
                prev.push(seq![s.last()])
            }
        }),
{
    let sep = ws_sep();
    let f = non_empty_piece();
    let p = split_pieces(s.drop_last(), sep);
    lemma_split_pieces_len(s.drop_last(), sep);
    reveal(Seq::filter);
    if is_ws(s.last()) {
        let q = p.push(Seq::<char>::empty());
        assert(q.drop_last() =~= p);
        assert(q.filter(f) == p.filter(f));
    } else {
        let q = p.update(p.len() - 1, p.last().push(s.last()));
        let init = p.drop_last();
        assert(q.drop_last() =~= init);
        assert(p =~= init.push(p.last()));
        if non_empty(p.last()) {
            assert(p.filter(f) == init.filter(f).push(p.last()));
            assert(q.filter(f) =~= p.filter(f).update(
                p.filter(f).len() - 1,
                p.last().push(s.last()),
            ));
        } else {
            assert(p.filter(f) == init.filter(f));
            assert(q.filter(f) == init.filter(f).push(p.last().push(s.last())));
            assert(p.last().push(s.last()) =~= seq![s.last()]);
        }
    }
}

// ---------------------------------------------------------------------------
// Executable functions
// ---------------------------------------------------------------------------

/// Turns a string slice into the sequence of its characters.
pub fn chars_of(s: &str) -> (r: Vec<char>)
    ensures
        r@ == s@,
{
    let mut r: Vec<char> = Vec::new();
    for c in it: s.chars()
        invariant
            r@ == it.seq().take(it.index() as int),
            it.seq() == s@,
    {
        r.push(c);
    }
    r
}

/// `char::is_whitespace`.
pub fn is_whitespace(c: char) -> (r: bool)
    ensures
        r == is_ws(c),
{
    let u = c as u32;
    (0x9 <= u && u <= 0xd) || u == 0x20 || u == 0x85 || u == 0xa0 || u == 0x1680 || (0x2000 <= u
        && u <= 0x200a) || u == 0x2028 || u == 0x2029 || u == 0x202f || u == 0x205f || u == 0x3000
}

/// The characters of `s` from `lo` up to `hi`.
pub fn slice_chars(s: &Vec<char>, lo: usize, hi: usize) -> (r: Vec<char>)
    requires
        lo <= hi <= s.len(),
    ensures
        r@ == s@.subrange(lo as int, hi as int),
{
    let mut r: Vec<char> = Vec::new();
    let mut i = lo;
    while i < hi
        invariant
            lo <= i <= hi <= s.len(),
            r@ == s@.subrange(lo as int, i as int),
        decreases hi - i,
    {
        r.push(s[i]);
        i = i + 1;
    }
    r
}

/// `s` with whitespace removed at both ends.
pub fn trim_chars(s: &Vec<char>) -> (r: Vec<char>)
    ensures
        r@ == trim(s@),
{
    let n = s.len();
    let mut a: usize = 0;
    while a < n && is_whitespace(s[a])
        invariant
            a <= n == s.len(),
            forall|j: int| 0 <= j < a ==> is_ws(#[trigger] s@[j]),
        decreases n - a,
    {
        a = a + 1;
    }
    proof {
        lemma_trim_start_at(s@, a as int);
    }
    let ghost t = s@.skip(a as int);
    let mut b: usize = n;
    while b > a && is_whitespace(s[b - 1])
        invariant
            a <= b <= n == s.len(),
            forall|j: int| b <= j < n ==> is_ws(#[trigger] s@[j]),
        decreases b,
    {
        b = b - 1;
    }
    proof {
        assert forall|j: int| b - a <= j < t.len() implies is_ws(#[trigger] t[j]) by {
            assert(t[j] == s@[j + a]);
        }
        if b > a {
            assert(t[b - a - 1] == s@[b - 1]);
        }
        lemma_trim_end_at(t, b - a);
        assert(t.take(b - a) =~= s@.subrange(a as int, b as int));
    }
    slice_chars(s, a, b)
}

/// The whitespace-separated words of `s`.
pub fn words_of(s: &Vec<char>) -> (r: Vec<Vec<char>>)
    ensures
        seqs_of(r@) == words(s@),
{
    let n = s.len();
    let mut done: Vec<Vec<char>> = Vec::new();
    let mut cur: Vec<char> = Vec::new();
    let mut i: usize = 0;
    proof {
        reveal(Seq::filter);
        assert(s@.take(0) =~= Seq::<char>::empty());
        let e = split_pieces(Seq::<char>::empty(), ws_sep());
        assert(e.drop_last() =~= Seq::<Seq<char>>::empty());
        assert(Seq::<Seq<char>>::empty().filter(non_empty_piece()) =~= Seq::<Seq<char>>::empty());
        assert(e.filter(non_empty_piece()) =~= Seq::<Seq<char>>::empty());
    }
    while i < n
        invariant
            i <= n == s.len(),
            split_pieces(s@.take(i as int), ws_sep()).last() == cur@,
            words(s@.take(i as int)) == if cur@.len() > 0 {
                seqs_of(done@).push(cur@)
            } else {
                seqs_of(done@)
            },
        decreases n - i,
    {
        let c = s[i];
        let ghost pre = s@.take(i as int);
        let ghost next = s@.take(i + 1);
        proof {
            assert(next.drop_last() =~= pre);
            lemma_words_step(next);
            lemma_split_pieces_len(pre, ws_sep());
        }
        let ghost old_done = done@;
        let ghost old_cur = cur@;
        if is_whitespace(c) {
            if cur.len() > 0 {
                done.push(cur);
                cur = Vec::new();
                proof {
                    assert(seqs_of(done@) =~= seqs_of(old_done).push(old_cur));
                }
            }
        } else {
            cur.push(c);
            proof {
                if old_cur.len() > 0 {
                    assert(seqs_of(old_done).push(cur@) =~= seqs_of(old_done).push(
                        old_cur,
                    ).update(seqs_of(old_done).len() as int, old_cur.push(c)));
                } else {
                    assert(cur@ =~= seq![c]);
                }
            }
        }
        i = i + 1;
    }
    proof {
        assert(s@.take(n as int) =~= s@);
    }
    let ghost old_done = done@;
    let ghost old_cur = cur@;
    if cur.len() > 0 {
        done.push(cur);
        proof {
            assert(seqs_of(done@) =~= seqs_of(old_done).push(old_cur));
        }
    }
    done
}


/// The pieces of `s` between occurrences of `c`.
pub fn split_on_char(s: &Vec<char>, c: char) -> (r: Vec<Vec<char>>)
    ensures
        seqs_of(r@) == split_at_char(s@, c),
        r@.len() >= 1,
{
    let n = s.len();
    let mut done: Vec<Vec<char>> = Vec::new();
    let mut cur: Vec<char> = Vec::new();
    let mut i: usize = 0;
    proof {
        assert(s@.take(0) =~= Seq::<char>::empty());
        assert(split_pieces(s@.take(0), is_char(c)) =~= seqs_of(done@).push(cur@));
    }
    while i < n
        invariant
            i <= n == s.len(),
            split_pieces(s@.take(i as int), is_char(c)) == seqs_of(done@).push(cur@),
        decreases n - i,
    {
        let d = s[i];
        let ghost pre = s@.take(i as int);
        let ghost next = s@.take(i + 1);
        let ghost old_done = done@;
        let ghost old_cur = cur@;
        proof {
            assert(next.drop_last() =~= pre);
        }
        if d == c {
            done.push(cur);
            cur = Vec::new();
            proof {
                assert(seqs_of(done@).push(cur@) =~= seqs_of(old_done).push(old_cur).push(
                    Seq::<char>::empty(),
                ));
            }
        } else {
            cur.push(d);
            proof {
                assert(seqs_of(done@).push(cur@) =~= seqs_of(old_done).push(old_cur).update(
                    old_done.len() as int,
                    old_cur.push(d),
                ));
            }
        }
        i = i + 1;
    }
    proof {
        assert(s@.take(n as int) =~= s@);
    }
    let ghost old_done = done@;
    let ghost old_cur = cur@;
    done.push(cur);
    proof {
        assert(seqs_of(done@) =~= seqs_of(old_done).push(old_cur));
    }
    done
}

/// `l` without one trailing carriage return.
fn strip_cr_chars(l: &Vec<char>) -> (r: Vec<char>)
    ensures
        r@ == strip_cr(l@),
{
    let n = l.len();
    if n > 0 && l[n - 1] == '\r' {
        slice_chars(l, 0, n - 1)
    } else {
        slice_chars(l, 0, n)
    }
}

/// The lines of `s`.
pub fn lines_of(s: &Vec<char>) -> (r: Vec<Vec<char>>)
    ensures
        seqs_of(r@) == lines(s@),
{
    let mut r: Vec<Vec<char>> = Vec::new();
    let n = s.len();
    if n == 0 {
        proof {
            assert(seqs_of(r@) =~= lines(s@));
        }
        return r;
    }
    let p = split_on_char(s, '\n');
    let m = p.len() - 1;
    let ghost ps = seqs_of(p@);
    let mut j: usize = 0;
    while j < m
        invariant
            m + 1 == p.len(),
            ps == seqs_of(p@),
            j <= m,
            seqs_of(r@) == ps.take(j as int).map_values(|l: Seq<char>| strip_cr(l)),
        decreases m - j,
    {
        let l = strip_cr_chars(&p[j]);
        let ghost old_r = r@;
        r.push(l);
        proof {
            assert(ps.take(j + 1) =~= ps.take(j as int).push(ps[j as int]));
            assert(seqs_of(r@) =~= seqs_of(old_r).push(l@));
            assert(seqs_of(r@) =~= ps.take(j + 1).map_values(|l: Seq<char>| strip_cr(l)));
        }
        j = j + 1;
    }
    proof {
        assert(ps.take(m as int) =~= ps.drop_last());
    }
    if s[n - 1] != '\n' {
        let last = slice_chars(&p[m], 0, p[m].len());
        let ghost old_r = r@;
        r.push(last);
        proof {
            assert(seqs_of(r@) =~= seqs_of(old_r).push(last@));
        }
    }
    r
}

/// Whether `s` begins with `p`.
pub fn has_prefix(s: &Vec<char>, p: &Vec<char>) -> (r: bool)
    ensures
        r == starts_with(s@, p@),
{
    if p.len() > s.len() {
        return false;
    }
    let mut i: usize = 0;
    while i < p.len()
        invariant
            p.len() <= s.len(),
            i <= p.len(),
            s@.take(i as int) == p@.take(i as int),
        decreases p.len() - i,
    {
        if s[i] != p[i] {
            proof {
                assert(s@.take(p.len() as int)[i as int] != p@[i as int]);
            }
            return false;
        }
        proof {
            assert(s@.take(i + 1) =~= s@.take(i as int).push(s@[i as int]));
            assert(p@.take(i + 1) =~= p@.take(i as int).push(p@[i as int]));
        }
        i = i + 1;
    }
    proof {
        assert(p@.take(p.len() as int) =~= p@);
    }
    true
}

/// Whether `p` occurs in `s` at position `at`.
fn occurs_at_exec(s: &Vec<char>, p: &Vec<char>, at: usize) -> (r: bool)
    requires
        at + p.len() <= s.len(),
    ensures
        r == occurs_at(s@, p@, at as int),
{
    let mut i: usize = 0;
    while i < p.len()
        invariant
            at + p.len() <= s.len(),
            i <= p.len(),
            forall|k: int| 0 <= k < i ==> s@[at + k] == p@[k],
        decreases p.len() - i,
    {
        if s[at + i] != p[i] {
            proof {
                assert(s@.subrange(at as int, at + p.len())[i as int] != p@[i as int]);
            }
            return false;
        }
        i = i + 1;
    }
    proof {
        assert(s@.subrange(at as int, at + p.len()) =~= p@);
    }
    true
}

/// Whether `s` ends with `p`.
pub fn has_suffix(s: &Vec<char>, p: &Vec<char>) -> (r: bool)
    ensures
        r == ends_with(s@, p@),
{
    if p.len() > s.len() {
        return false;
    }
    let at = s.len() - p.len();
    let r = occurs_at_exec(s, p, at);
    proof {
        assert(s@.skip(at as int) =~= s@.subrange(at as int, s.len() as int));
    }
    r
}

/// Whether `p` occurs anywhere in `s`.
pub fn has_substring(s: &Vec<char>, p: &Vec<char>) -> (r: bool)
    ensures
        r == contains(s@, p@),
{
    if p.len() > s.len() {
        return false;
    }
    let last = s.len() - p.len();
    let mut at: usize = 0;
    loop
        invariant
            last + p.len() == s.len(),
            at <= last,
            forall|k: int| 0 <= k < at ==> !occurs_at(s@, p@, k),
        decreases last - at,
    {
        if occurs_at_exec(s, p, at) {
            return true;
        }
        if at == last {
            return false;
        }
        at = at + 1;
    }
}


/// What follows the first occurrence of `c` in `s`, if `c` occurs.
pub fn after_first_char(s: &Vec<char>, c: char) -> (r: Option<Vec<char>>)
    ensures
        match r {
            Some(t) => after_first(s@, c) == Some(t@),
            None => after_first(s@, c) is None,
        },
{
    let mut i: usize = 0;
    while i < s.len()
        invariant
            i <= s.len(),
            after_first(s@, c) == after_first(s@.skip(i as int), c),
        decreases s.len() - i,
    {
        proof {
            assert(s@.skip(i as int).drop_first() =~= s@.skip(i + 1));
        }
        if s[i] == c {
            return Some(slice_chars(s, i + 1, s.len()));
        }
        i = i + 1;
    }
    None
}

/// `s` with every leading repetition of `p` removed.
pub fn strip_prefixes_chars(s: &Vec<char>, p: &Vec<char>) -> (r: Vec<char>)
    ensures
        r@ == strip_prefixes(s@, p@),
{
    if p.len() == 0 {
        return slice_chars(s, 0, s.len());
    }
    let mut rest = slice_chars(s, 0, s.len());
    while has_prefix(&rest, p)
        invariant
            p@.len() > 0,
            strip_prefixes(s@, p@) == strip_prefixes(rest@, p@),
        decreases rest@.len(),
    {
        rest = slice_chars(&rest, p.len(), rest.len());
    }
    rest
}

/// Whether two character sequences are equal.
pub fn same_chars(a: &Vec<char>, b: &Vec<char>) -> (r: bool)
    ensures
        r == (a@ == b@),
{
    if a.len() != b.len() {
        return false;
    }
    has_prefix(a, b)
}

/// Calls `String::push`; the contract claims that the string's characters
/// afterwards are its characters before with `c` added at the end.
#[verifier::external_body]
fn push_char(s: &mut String, c: char)
    ensures
        final(s)@ == old(s)@.push(c),
{
    s.push(c);
}

/// The `String` holding the characters of `v`.
pub fn string_of(v: &Vec<char>) -> (r: String)
    ensures
        r@ == v@,
{
    let mut r = String::new();
    let mut i: usize = 0;
    while i < v.len()
        invariant
            i <= v.len(),
            r@ == v@.take(i as int),
        decreases v.len() - i,
    {
        push_char(&mut r, v[i]);
        proof {
            assert(v@.take(i + 1) =~= v@.take(i as int).push(v@[i as int]));
        }
        i = i + 1;
    }
    proof {
        assert(v@.take(v.len() as int) =~= v@);
    }
    r
}

/// Appends the characters of `s` to `v`.
pub fn append_str(v: &mut Vec<char>, s: &str)
    ensures
        final(v)@ == old(v)@ + s@,
{
    let t = chars_of(s);
    let mut i: usize = 0;
    while i < t.len()
        invariant
            i <= t.len(),
            t@ == s@,
            v@ == old(v)@ + t@.take(i as int),
        decreases t.len() - i,
    {
        v.push(t[i]);
        proof {
            assert(t@.take(i + 1) =~= t@.take(i as int).push(t@[i as int]));
        }
        i = i + 1;
    }
    proof {
        assert(t@.take(t.len() as int) =~= t@);
    }
}

/// `s` with whitespace removed at both ends (`str::trim`).
pub fn trimmed(s: &str) -> (r: String)
    ensures
        r@ == trim(s@),
{
    string_of(&trim_chars(&chars_of(s)))
}

} // verus!
