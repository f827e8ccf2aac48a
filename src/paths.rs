//! Output file names: a template with placeholders for the room and the local
//! date and time, an optional sequence suffix, and the `.ts` extension.

use vstd::prelude::*;
use crate::error::Error;
use crate::text::{all_digits, chars_of, decimal, occurs_at, occurs_at_exec, push_decimal, push_str, string_of};

verus! {

#[verifier::external_type_specification]
#[verifier::external_body]
pub struct ExPathBuf(std::path::PathBuf);

/// The local date and time as the file name spells them.
#[derive(Debug, Clone)]
pub struct TimeStamp {
    /// Year, at least four characters.
    pub year: String,
    /// Two-digit month, day, hour, minute and second.
    pub month: String,
    pub day: String,
    pub hour: String,
    pub minute: String,
    pub second: String,
}

pub open spec fn two_digits(s: Seq<char>) -> bool {
    s.len() == 2 && all_digits(s)
}

/// The shape that every time stamp of the local clock has: a year of at least
/// four characters and two-digit month, day, hour, minute and second.
pub open spec fn well_formed_stamp(t: TimeStamp) -> bool {
    &&& t.year@.len() >= 4
    &&& two_digits(t.month@)
    &&& two_digits(t.day@)
    &&& two_digits(t.hour@)
    &&& two_digits(t.minute@)
    &&& two_digits(t.second@)
}

/// Relies on `chrono::Local::now` and `DateTime::format` with `%Y`, `%m`,
/// `%d`, `%H`, `%M` and `%S`: zero-padded two-digit fields, a year of at
/// least four characters. What time it is, nothing says.
#[verifier::external_body]
fn local_time_stamp() -> (r: TimeStamp)
    ensures
        well_formed_stamp(r),
{
    let now = chrono::Local::now();
    TimeStamp {
        year: now.format("%Y").to_string(),
        month: now.format("%m").to_string(),
        day: now.format("%d").to_string(),
        hour: now.format("%H").to_string(),
        minute: now.format("%M").to_string(),
        second: now.format("%S").to_string(),
    }
}

/// Relies on `std::path::Path::join`: the file name under the directory.
#[verifier::external_body]
fn join_path(dir: &str, file_name: &str) -> (r: std::path::PathBuf) {
    std::path::Path::new(dir).join(file_name)
}

/// `s` with every occurrence of `from` replaced by `to`, scanning from the
/// left and never overlapping, as `str::replace` does.
pub open spec fn replace_all(s: Seq<char>, from: Seq<char>, to: Seq<char>) -> Seq<char>
    recommends
        from.len() > 0,
    decreases s.len(),
{
    if s.len() == 0 || from.len() == 0 {
        s
    } else if occurs_at(s, from, 0) {
        to + replace_all(s.subrange(from.len() as int, s.len() as int), from, to)
    } else {
        seq![s[0]] + replace_all(s.drop_first(), from, to)
    }
}

/// Replaces every occurrence of a non-empty `from` by `to`.
fn replace(s: &str, from: &str, to: &str) -> (r: String)
    requires
        from@.len() > 0,
    ensures
        r@ == replace_all(s@, from@, to@),
{
    let cs = chars_of(s);
    let pat = chars_of(from);
    let n = cs.len();
    let mut out: Vec<char> = Vec::new();
    let mut i: usize = 0;
    proof {
        assert(cs@.subrange(0, n as int) == cs@);
    }
    while i < n
        invariant
            i <= n,
            n == cs@.len(),
            pat@ == from@,
            pat@.len() > 0,
            out@ + replace_all(cs@.subrange(i as int, n as int), pat@, to@) == replace_all(cs@, pat@, to@),
        decreases n - i,
    {
        let ghost rest = cs@.subrange(i as int, n as int);
        let ghost prev = out@;
        if occurs_at_exec(&cs, &pat, i) {
            proof {
                assert(rest.subrange(0, pat@.len() as int) == cs@.subrange(i as int, i + pat@.len()));
                assert(occurs_at(rest, pat@, 0));
                assert(rest.subrange(pat@.len() as int, rest.len() as int) == cs@.subrange(
                    i + pat@.len(),
                    n as int,
                ));
            }
            push_str(&mut out, to);
            i = i + pat.len();
            proof {
                assert(out@ + replace_all(cs@.subrange(i as int, n as int), pat@, to@) =~= prev + (to@
                    + replace_all(cs@.subrange(i as int, n as int), pat@, to@)));
            }
        } else {
            proof {
                if occurs_at(rest, pat@, 0) {
                    assert(rest.subrange(0, pat@.len() as int) == cs@.subrange(i as int, i + pat@.len()));
                }
                assert(rest.drop_first() == cs@.subrange(i + 1, n as int));
                assert(rest[0] == cs@[i as int]);
            }
            out.push(cs[i]);
            i = i + 1;
            proof {
                assert(out@ + replace_all(cs@.subrange(i as int, n as int), pat@, to@) =~= prev + (seq![
                    rest[0],
                ] + replace_all(cs@.subrange(i as int, n as int), pat@, to@)));
            }
        }
    }
    proof {
        assert(cs@.subrange(n as int, n as int).len() == 0);
        assert(out@ + Seq::<char>::empty() == out@);
    }
    string_of(&out)
}

/// The template with its placeholders filled in: `{{.Username}}` by the room,
/// then `{{.Year}}`, `{{.Month}}`, `{{.Day}}`, `{{.Hour}}`, `{{.Minute}}` and
/// `{{.Second}}` by the time stamp's fields, in that order.
pub open spec fn filled_template(pattern: Seq<char>, room: Seq<char>, t: TimeStamp) -> Seq<char> {
    let a = replace_all(pattern, "{{.Username}}"@, room);
    let b = replace_all(a, "{{.Year}}"@, t.year@);
    let c = replace_all(b, "{{.Month}}"@, t.month@);
    let d = replace_all(c, "{{.Day}}"@, t.day@);
    let e = replace_all(d, "{{.Hour}}"@, t.hour@);
    let f = replace_all(e, "{{.Minute}}"@, t.minute@);
    replace_all(f, "{{.Second}}"@, t.second@)
}

/// A file name: the filled template, `_` and the sequence number when it is
/// positive, and `.ts`.
pub open spec fn file_name(pattern: Seq<char>, room: Seq<char>, sequence: u32, t: TimeStamp) -> Seq<char> {
    let base = filled_template(pattern, room, t);
    let numbered = if sequence > 0 {
        base + "_"@ + decimal(sequence as nat)
    } else {
        base
    };
    numbered + ".ts"@
}

/// Builds the file name for a room, a file number and a time stamp.
pub fn expand_filename(pattern: &str, room: &str, sequence: u32, t: &TimeStamp) -> (r: String)
    ensures
        r@ == file_name(pattern@, room@, sequence, *t),
{
    proof {
        reveal_strlit("{{.Username}}");
        reveal_strlit("{{.Year}}");
        reveal_strlit("{{.Month}}");
        reveal_strlit("{{.Day}}");
        reveal_strlit("{{.Hour}}");
        reveal_strlit("{{.Minute}}");
        reveal_strlit("{{.Second}}");
    }
    let a = replace(pattern, "{{.Username}}", room);
    let b = replace(a.as_str(), "{{.Year}}", t.year.as_str());
    let c = replace(b.as_str(), "{{.Month}}", t.month.as_str());
    let d = replace(c.as_str(), "{{.Day}}", t.day.as_str());
    let e = replace(d.as_str(), "{{.Hour}}", t.hour.as_str());
    let f = replace(e.as_str(), "{{.Minute}}", t.minute.as_str());
    let g = replace(f.as_str(), "{{.Second}}", t.second.as_str());
    let mut out = chars_of(g.as_str());
    if sequence > 0 {
        push_str(&mut out, "_");
        push_decimal(&mut out, sequence as u64);
    }
    push_str(&mut out, ".ts");
    string_of(&out)
}

/// Path of an output file under `output_dir`, with the file name it ends in.
/// The name is built from the template at the current local time (see
/// `expand_filename`); which time that is, only the clock knows.
pub fn generate_output_path(output_dir: &str, pattern: &str, room: &str, sequence: u32) -> (r: Result<(std::path::PathBuf, String), Error>)
    ensures
        r is Ok,
        r matches Ok((_, name)) && exists|t: TimeStamp|
            well_formed_stamp(t) && name@ == #[trigger] file_name(pattern@, room@, sequence, t),
{
    let t = local_time_stamp();
    let name = expand_filename(pattern, room, sequence, &t);
    let path = join_path(output_dir, name.as_str());
    Ok((path, name))
}

} // verus!
