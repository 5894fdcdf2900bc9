//! The two-number state files kept between runs (`"<a> <b>"`).
use vstd::prelude::*;
use crate::number::{decimal, parse_u64, parse_u64_chars, push_decimal};
use crate::text::{chars_of, seqs_of, string_of, words, words_of};

verus! {

/// A word read as a `u64`, zero when it is no number.
pub open spec fn u64_or_zero(w: Seq<char>) -> u64 {
    match parse_u64(w) {
        Some(v) => v,
        None => 0,
    }
}

/// The pair a state file holds: its first two words read as numbers (each
/// zero when it is no number), or two zeros when it has fewer than two
/// words.
pub open spec fn pair_of(text: Seq<char>) -> (u64, u64) {
    let w = words(text);
    if w.len() >= 2 {
        (u64_or_zero(w[0]), u64_or_zero(w[1]))
    } else {
        (0, 0)
    }
}

/// The text a state file is written with: both numbers in decimal, one
/// space between them.
pub open spec fn pair_text(a: u64, b: u64) -> Seq<char> {
    decimal(a as nat) + seq![' '] + decimal(b as nat)
}

/// Reads the pair a state file holds.
pub fn read_pair(text: &str) -> (r: (u64, u64))
    ensures
        r == pair_of(text@),
{
    let c = chars_of(text);
    let w = words_of(&c);
    if w.len() >= 2 {
        proof {
            assert(seqs_of(w@)[0] == w@[0]@);
        }
        let a = match parse_u64_chars(&w[0]) {
            Some(v) => v,
            None => 0,
        };
        let b = match parse_u64_chars(&w[1]) {
            Some(v) => v,
            None => 0,
        };
        proof {
            assert(seqs_of(w@)[1] == w@[1]@);
        }
        (a, b)
    } else {
        (0, 0)
    }
}

/// The text to write a pair with.
pub fn write_pair(a: u64, b: u64) -> (r: String)
    ensures
        r@ == pair_text(a, b),
{
    let mut out: Vec<char> = Vec::new();
    push_decimal(&mut out, a);
    out.push(' ');
    push_decimal(&mut out, b);
    proof {
        assert(out@ =~= pair_text(a, b));
    }
    string_of(&out)
}

} // verus!
