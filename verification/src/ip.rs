//! The local address of the default route, from the output of `ip route
//! get`, as text or as JSON.
use vstd::prelude::*;
use crate::json::{first_prefsrc, first_prefsrc_of, json_parse, parse_json};
use crate::text::{chars_of, opt_string_view, same_chars, seqs_of, string_of, words, words_of};

verus! {

broadcast use vstd::seq_lib::group_seq_properties;

/// The word after the first word `src`, if there is one.
pub open spec fn word_after_src(ws: Seq<Seq<char>>) -> Option<Seq<char>>
    decreases ws.len(),
{
    if ws.len() == 0 {
        None
    } else if ws[0] == "src"@ {
        if ws.len() > 1 {
            Some(ws[1])
        } else {
            None
        }
    } else {
        word_after_src(ws.drop_first())
    }
}

/// An address, or `N/A` when there is none.
pub open spec fn address_or_na(a: Option<Seq<char>>) -> Seq<char> {
    match a {
        Some(s) => s,
        None => "N/A"@,
    }
}

/// The source address in the text output of `ip route get`: the word
/// after `src`, or `N/A`.
pub fn ip_from_route_text(output: &str) -> (r: String)
    ensures
        r@ == address_or_na(word_after_src(words(output@))),
{
    let c = chars_of(output);
    let w = words_of(&c);
    let ghost ws = seqs_of(w@);
    let src = chars_of("src");
    let mut i: usize = 0;
    proof {
        assert(ws.skip(0) =~= ws);
    }
    while i < w.len()
        invariant
            ws == seqs_of(w@),
            ws == words(output@),
            src@ == "src"@,
            i <= w.len(),
            word_after_src(ws) == word_after_src(ws.skip(i as int)),
        decreases w.len() - i,
    {
        proof {
            assert(ws.skip(i as int).drop_first() =~= ws.skip(i + 1));
            assert(ws.skip(i as int)[0] == w@[i as int]@);
        }
        if same_chars(&w[i], &src) {
            if i + 1 < w.len() {
                proof {
                    assert(ws.skip(i as int)[1] == w@[i + 1]@);
                }
                return string_of(&w[i + 1]);
            } else {
                return string_of(&chars_of("N/A"));
            }
        }
        i = i + 1;
    }
    string_of(&chars_of("N/A"))
}

/// The segment for an address: the address itself, or `N/A`.
pub fn address_text(prefsrc: Option<String>) -> (r: String)
    ensures
        r@ == address_or_na(opt_string_view(prefsrc)),
{
    match prefsrc {
        Some(s) => s,
        None => string_of(&chars_of("N/A")),
    }
}

/// The source address in the JSON output of `ip -j route get`: the
/// `prefsrc` of its first route, or `N/A`.
pub fn ip_from_route_json(output: &str) -> (r: String)
    ensures
        r@ == address_or_na(
            match json_parse(output@) {
                Some(v) => first_prefsrc_of(v),
                None => None,
            },
        ),
{
    let prefsrc = match parse_json(output) {
        Some(v) => first_prefsrc(&v),
        None => None,
    };
    address_text(prefsrc)
}

} // verus!
