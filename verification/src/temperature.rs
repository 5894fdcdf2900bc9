//! CPU temperature from coretemp's hwmon files or from the output of
//! `sensors`, and which thermal zones measure the CPU.
use vstd::prelude::*;
use crate::number::{parse_i32, parse_i32_chars, push_signed_decimal, signed_decimal};
use crate::text::{
    append_str, chars_of, contains, ends_with, has_prefix, has_substring, has_suffix, lines,
    lines_of, opt_str_view, seqs_of, split_at_char, split_on_char, starts_with, string_of, trim,
    trim_chars,
};

verus! {

broadcast use vstd::seq_lib::group_seq_properties;

/// One file of a coretemp hwmon directory: its name and its contents
/// (`None` when it could not be read).
#[derive(Clone, Debug)]
pub struct TempFile {
    pub name: String,
    pub content: Option<String>,
}

/// A temperature input file: `temp…_input`.
pub open spec fn is_temp_input(name: Seq<char>) -> bool {
    starts_with(name, "temp"@) && ends_with(name, "_input"@)
}

/// Millidegrees to degrees, rounding toward zero as integer division does.
pub open spec fn to_degrees(t: i32) -> i32 {
    if t >= 0 {
        (t / 1000) as i32
    } else {
        (0 - ((0 - t) / 1000)) as i32
    }
}

/// The degrees that a temperature file holds: its trimmed text read as
/// millidegrees; `None` when it is no number.
pub open spec fn degrees_of(text: Seq<char>) -> Option<i32> {
    match parse_i32(trim(text)) {
        Some(t) => Some(to_degrees(t)),
        None => None,
    }
}

/// The index of the first temperature input file that could be read.
pub open spec fn first_readable_input(fs: Seq<TempFile>) -> Option<int>
    decreases fs.len(),
{
    if fs.len() == 0 {
        None
    } else if is_temp_input(fs[0].name@) && fs[0].content is Some {
        Some(0)
    } else {
        match first_readable_input(fs.drop_first()) {
            Some(i) => Some(i + 1),
            None => None,
        }
    }
}

/// What the hwmon files decide: nothing when no temperature input could be
/// read, else the degrees that the first readable one holds.
pub open spec fn coretemp_of(fs: Seq<TempFile>) -> Option<Option<i32>> {
    match first_readable_input(fs) {
        Some(i) => Some(degrees_of(fs[i].content->0@)),
        None => None,
    }
}

/// Millidegrees to degrees.
fn to_degrees_exec(t: i32) -> (r: i32)
    ensures
        r == to_degrees(t),
{
    if t >= 0 {
        t / 1000
    } else {
        let m: i64 = 0 - (t as i64);
        (0 - m / 1000) as i32
    }
}

/// The degrees that a temperature file holds.
pub fn degrees_from(text: &str) -> (r: Option<i32>)
    ensures
        r == degrees_of(text@),
{
    match parse_i32_chars(&trim_chars(&chars_of(text))) {
        Some(t) => Some(to_degrees_exec(t)),
        None => None,
    }
}

/// The temperature that the hwmon files give, in the order the directories
/// were read: `None` when no temperature input could be read, else what the
/// first readable one holds.
pub fn coretemp_reading(files: &Vec<TempFile>) -> (r: Option<Option<i32>>)
    ensures
        r == coretemp_of(files@),
{
    let ghost fs = files@;
    let mut i: usize = 0;
    proof {
        assert(fs.skip(0) =~= fs);
    }
    let prefix = chars_of("temp");
    let suffix = chars_of("_input");
    while i < files.len()
        invariant
            fs == files@,
            prefix@ == "temp"@,
            suffix@ == "_input"@,
            i <= files.len(),
            first_readable_input(fs) == match first_readable_input(fs.skip(i as int)) {
                Some(j) => Some(j + i),
                None => None,
            },
        decreases files.len() - i,
    {
        proof {
            assert(fs.skip(i as int).drop_first() =~= fs.skip(i + 1));
            assert(fs.skip(i as int)[0] == fs[i as int]);
        }
        let f = &files[i];
        let name = chars_of(f.name.as_str());
        if has_prefix(&name, &prefix) && has_suffix(&name, &suffix) {
            match &f.content {
                Some(t) => {
                    return Some(degrees_from(t.as_str()));
                },
                None => {},
            }
        }
        i = i + 1;
    }
    None
}

/// What a line of `sensors` output decides: a line naming `Package id 0:`
/// with a `+` in it gives the number between its first `+` and the next `.`
/// (`None` inside when that is no number); other lines decide nothing.
pub open spec fn sensors_line(l: Seq<char>) -> Option<Option<i32>> {
    if contains(l, "Package id 0:"@) {
        let parts = split_at_char(l, '+');
        if parts.len() > 1 {
            Some(parse_i32(split_at_char(parts[1], '.')[0]))
        } else {
            None
        }
    } else {
        None
    }
}

/// The temperature that the first deciding line gives.
pub open spec fn sensors_temp_of(ls: Seq<Seq<char>>) -> Option<i32>
    decreases ls.len(),
{
    if ls.len() == 0 {
        None
    } else {
        match sensors_line(ls[0]) {
            Some(t) => t,
            None => sensors_temp_of(ls.drop_first()),
        }
    }
}

/// The package temperature in the output of `sensors`.
pub fn temperature_from_sensors(output: &str) -> (r: Option<i32>)
    ensures
        r == sensors_temp_of(lines(output@)),
{
    let c = chars_of(output);
    let ls = lines_of(&c);
    let ghost s = seqs_of(ls@);
    let label = chars_of("Package id 0:");
    let mut i: usize = 0;
    proof {
        assert(s.skip(0) =~= s);
    }
    while i < ls.len()
        invariant
            s == seqs_of(ls@),
            s == lines(output@),
            label@ == "Package id 0:"@,
            i <= ls.len(),
            sensors_temp_of(s) == sensors_temp_of(s.skip(i as int)),
        decreases ls.len() - i,
    {
        proof {
            assert(s.skip(i as int).drop_first() =~= s.skip(i + 1));
            assert(s.skip(i as int)[0] == ls@[i as int]@);
        }
        let l = &ls[i];
        if has_substring(l, &label) {
            let parts = split_on_char(l, '+');
            if parts.len() > 1 {
                proof {
                    assert(seqs_of(parts@)[1] == parts@[1]@);
                }
                let pieces = split_on_char(&parts[1], '.');
                proof {
                    assert(seqs_of(pieces@)[0] == pieces@[0]@);
                }
                return parse_i32_chars(&pieces[0]);
            }
        }
        i = i + 1;
    }
    proof {
        assert(s.skip(ls.len() as int) =~= Seq::<Seq<char>>::empty());
    }
    None
}

/// The temperature segment: the degrees followed by `°`, or `N/A`.
pub open spec fn temperature_segment(t: Option<i32>) -> Seq<char> {
    match t {
        Some(d) => signed_decimal(d as int) + "°"@,
        None => "N/A"@,
    }
}

/// The temperature segment of the status bar.
pub fn temperature_text(t: Option<i32>) -> (r: String)
    ensures
        r@ == temperature_segment(t),
{
    match t {
        Some(d) => {
            let mut out: Vec<char> = Vec::new();
            push_signed_decimal(&mut out, d as i64);
            append_str(&mut out, "°");
            proof {
                assert(out@ =~= temperature_segment(t));
            }
            string_of(&out)
        },
        None => string_of(&chars_of("N/A")),
    }
}

/// A thermal zone that measures the CPU: its name starts with
/// `thermal_zone` and its type names `x86_pkg_temp` or `cpu`.
pub open spec fn is_cpu_zone(name: Seq<char>, zone_type: Option<Seq<char>>) -> bool {
    starts_with(name, "thermal_zone"@) && match zone_type {
        Some(t) => contains(t, "x86_pkg_temp"@) || contains(t, "cpu"@),
        None => false,
    }
}

/// Whether a thermal zone measures the CPU, from its name and the contents
/// of its type file (`None` when that could not be read).
pub fn thermal_zone_is_cpu(name: &str, zone_type: Option<&str>) -> (r: bool)
    ensures
        r == is_cpu_zone(name@, opt_str_view(zone_type)),
{
    if !has_prefix(&chars_of(name), &chars_of("thermal_zone")) {
        return false;
    }
    match zone_type {
        Some(t) => {
            let tc = chars_of(t);
            has_substring(&tc, &chars_of("x86_pkg_temp")) || has_substring(&tc, &chars_of("cpu"))
        },
        None => false,
    }
}

} // verus!
