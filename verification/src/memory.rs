//! Available memory from the text of `/proc/meminfo`.
use vstd::prelude::*;
use crate::alert::{Alert, Urgency};
use crate::logfile::u64_or_zero;
use crate::number::{decimal, parse_u64_chars, push_decimal};
use crate::text::{append_str, chars_of, has_prefix, lines, lines_of, seqs_of, starts_with, string_of, words, words_of};

verus! {

broadcast use vstd::seq_lib::group_seq_properties;

/// A line that reports available memory.
pub open spec fn is_available_line(l: Seq<char>) -> bool {
    starts_with(l, "MemAvailable:"@)
}

/// A line that reports available memory and has a value after its label.
pub open spec fn is_valued_line(l: Seq<char>) -> bool {
    is_available_line(l) && words(l).len() >= 2
}

/// The value of such a line in MiB: its second word, in KiB, divided by
/// 1024 (zero when that word is no number).
pub open spec fn line_mb(l: Seq<char>) -> u64 {
    (u64_or_zero(words(l)[1]) / 1024) as u64
}

/// The index of the first line that reports available memory.
pub open spec fn first_available(ls: Seq<Seq<char>>) -> Option<int>
    decreases ls.len(),
{
    if ls.len() == 0 {
        None
    } else if is_available_line(ls[0]) {
        Some(0)
    } else {
        match first_available(ls.drop_first()) {
            Some(i) => Some(i + 1),
            None => None,
        }
    }
}

/// The index of the first line that reports available memory with a value.
pub open spec fn first_valued(ls: Seq<Seq<char>>) -> Option<int>
    decreases ls.len(),
{
    if ls.len() == 0 {
        None
    } else if is_valued_line(ls[0]) {
        Some(0)
    } else {
        match first_valued(ls.drop_first()) {
            Some(i) => Some(i + 1),
            None => None,
        }
    }
}

/// The index of the last line that reports available memory with a value.
pub open spec fn last_valued(ls: Seq<Seq<char>>) -> Option<int>
    decreases ls.len(),
{
    if ls.len() == 0 {
        None
    } else if is_valued_line(ls.last()) {
        Some(ls.len() - 1)
    } else {
        last_valued(ls.drop_last())
    }
}

/// Available memory as the first matching line gives it: its value, or zero
/// when that line has none; zero when no line matches.
pub open spec fn available_mb_first_line(s: Seq<char>) -> u64 {
    let ls = lines(s);
    match first_available(ls) {
        Some(i) => if words(ls[i]).len() >= 2 {
            line_mb(ls[i])
        } else {
            0
        },
        None => 0,
    }
}

/// Available memory as the first matching line with a value gives it; zero
/// when there is none.
pub open spec fn available_mb_first_value(s: Seq<char>) -> u64 {
    let ls = lines(s);
    match first_valued(ls) {
        Some(i) => line_mb(ls[i]),
        None => 0,
    }
}

/// Available memory as the last matching line with a value gives it; zero
/// when there is none.
pub open spec fn available_mb_last_value(s: Seq<char>) -> u64 {
    let ls = lines(s);
    match last_valued(ls) {
        Some(i) => line_mb(ls[i]),
        None => 0,
    }
}

/// The value in MiB of a line that has a second word.
fn line_mb_of(l: &Vec<char>) -> (r: u64)
    requires
        words(l@).len() >= 2,
    ensures
        r == line_mb(l@),
{
    let w = words_of(l);
    proof {
        assert(seqs_of(w@)[1] == w@[1]@);
    }
    let kb = match parse_u64_chars(&w[1]) {
        Some(v) => v,
        None => 0,
    };
    kb / 1024
}

/// Whether a line reports available memory, and how many words it has.
fn classify_line(l: &Vec<char>, label: &Vec<char>) -> (r: (bool, usize))
    requires
        label@ == "MemAvailable:"@,
    ensures
        r.0 == is_available_line(l@),
        r.1 == words(l@).len(),
{
    let w = words_of(l);
    (has_prefix(l, label), w.len())
}

/// Available memory, in MiB, from the text of `/proc/meminfo`, as
/// [`MemoryInfo`] reads it.
pub fn available_mb_from_first_line(meminfo: &str) -> (r: u64)
    ensures
        r == available_mb_first_line(meminfo@),
{
    let c = chars_of(meminfo);
    let ls = lines_of(&c);
    let label = chars_of("MemAvailable:");
    let ghost s = seqs_of(ls@);
    let mut i: usize = 0;
    while i < ls.len()
        invariant
            s == seqs_of(ls@),
            s == lines(meminfo@),
            label@ == "MemAvailable:"@,
            i <= ls.len(),
            first_available(s) == match first_available(s.skip(i as int)) {
                Some(j) => Some(j + i),
                None => None,
            },
        decreases ls.len() - i,
    {
        proof {
            assert(s.skip(i as int).drop_first() =~= s.skip(i + 1));
            assert(s.skip(i as int)[0] == ls@[i as int]@);
        }
        let (is_avail, n) = classify_line(&ls[i], &label);
        if is_avail {
            if n >= 2 {
                return line_mb_of(&ls[i]);
            } else {
                return 0;
            }
        }
        i = i + 1;
    }
    0
}

/// Available memory, in MiB, as the first matching line with a value gives
/// it.
pub fn available_mb_from_first_value(meminfo: &str) -> (r: u64)
    ensures
        r == available_mb_first_value(meminfo@),
{
    let c = chars_of(meminfo);
    let ls = lines_of(&c);
    let label = chars_of("MemAvailable:");
    let ghost s = seqs_of(ls@);
    let mut i: usize = 0;
    while i < ls.len()
        invariant
            s == seqs_of(ls@),
            s == lines(meminfo@),
            label@ == "MemAvailable:"@,
            i <= ls.len(),
            first_valued(s) == match first_valued(s.skip(i as int)) {
                Some(j) => Some(j + i),
                None => None,
            },
        decreases ls.len() - i,
    {
        proof {
            assert(s.skip(i as int).drop_first() =~= s.skip(i + 1));
            assert(s.skip(i as int)[0] == ls@[i as int]@);
        }
        let (is_avail, n) = classify_line(&ls[i], &label);
        if is_avail && n >= 2 {
            return line_mb_of(&ls[i]);
        }
        i = i + 1;
    }
    0
}

/// Available memory, in MiB, as the last matching line with a value gives
/// it.
pub fn available_mb_from_last_value(meminfo: &str) -> (r: u64)
    ensures
        r == available_mb_last_value(meminfo@),
{
    let c = chars_of(meminfo);
    let ls = lines_of(&c);
    let label = chars_of("MemAvailable:");
    let ghost s = seqs_of(ls@);
    let mut mb: u64 = 0;
    let mut i: usize = 0;
    proof {
        assert(s.take(0) =~= Seq::<Seq<char>>::empty());
    }
    while i < ls.len()
        invariant
            s == seqs_of(ls@),
            s == lines(meminfo@),
            label@ == "MemAvailable:"@,
            i <= ls.len(),
            mb == match last_valued(s.take(i as int)) {
                Some(j) => line_mb(s.take(i as int)[j]),
                None => 0,
            },
            last_valued(s.take(i as int)) matches Some(j) ==> 0 <= j < i,
        decreases ls.len() - i,
    {
        proof {
            assert(s.take(i + 1).drop_last() =~= s.take(i as int));
            assert(s.take(i + 1).last() == ls@[i as int]@);
            assert forall|j: int| 0 <= j < i implies s.take(i + 1)[j] == #[trigger] s.take(
                i as int,
            )[j] by {}
        }
        let (is_avail, n) = classify_line(&ls[i], &label);
        if is_avail && n >= 2 {
            mb = line_mb_of(&ls[i]);
        }
        i = i + 1;
    }
    proof {
        assert(s.take(ls.len() as int) =~= s);
    }
    mb
}

/// Available memory in MiB.
#[derive(Clone, Debug)]
pub struct MemoryInfo {
    available_mb: u64,
}

impl View for MemoryInfo {
    type V = u64;

    closed spec fn view(&self) -> u64 {
        self.available_mb
    }
}

impl Default for MemoryInfo {
    fn default() -> (r: MemoryInfo)
        ensures
            r@ == 0,
    {
        MemoryInfo { available_mb: 0 }
    }
}

impl MemoryInfo {
    /// The available memory that the text of `/proc/meminfo` reports: the
    /// first `MemAvailable:` line decides.
    pub fn from_meminfo(meminfo: &str) -> (r: MemoryInfo)
        ensures
            r@ == available_mb_first_line(meminfo@),
    {
        MemoryInfo { available_mb: available_mb_from_first_line(meminfo) }
    }

    /// Available memory in MiB.
    pub fn available_mb(&self) -> (r: u64)
        ensures
            r == self@,
    {
        self.available_mb
    }
}

/// The body of the low-memory notification.
pub open spec fn low_memory_body(mb: u64) -> Seq<char> {
    "可用内存："@ + decimal(mb as nat) + "MB"@
}

/// The notification for low memory: under 2000 MiB available.
pub fn memory_alert(mb: u64) -> (r: Option<Alert>)
    ensures
        r is Some <==> mb < 2000,
        r matches Some(a) ==> a.summary@ == "内存警告"@ && a.body@ == low_memory_body(mb)
            && a.urgency == Urgency::Low,
{
    if mb < 2000 {
        let mut body: Vec<char> = Vec::new();
        append_str(&mut body, "可用内存：");
        push_decimal(&mut body, mb);
        append_str(&mut body, "MB");
        proof {
            assert(body@ =~= low_memory_body(mb));
        }
        Some(Alert { summary: string_of(&chars_of("内存警告")), body: string_of(&body), urgency: Urgency::Low })
    } else {
        None
    }
}

} // verus!
