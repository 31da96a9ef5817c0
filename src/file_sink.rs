//! Where the file sink writes a record: the file names built from its
//! configuration, the record's date, its source file and the thread.
use vstd::prelude::*;
use crate::context::opt_view;
use crate::context_manager::{main_key, main_name};
use crate::params::{day, day_offset};
use crate::text::{padded, push_all, push_padded, push_str, string_of, to_chars};
use crate::trace::OneTrace;

verus! {

/// The UTC calendar date (year, month, day) of a count of nanoseconds since
/// the Unix epoch, as the `time` crate reckons it.
pub uninterp spec fn calendar_of(nanos: int) -> (int, int, int);

/// Relies on `time::OffsetDateTime::from_unix_timestamp_nanos` and
/// `to_calendar_date`: the calendar date of the timestamp, month in 1..=12
/// and day in 1..=31; none when the timestamp is out of the crate's range.
#[verifier::external_body]
fn calendar_date(nanos: i128) -> (r: Option<(i32, u8, u8)>)
    ensures
        r matches Some((y, m, d)) ==> (y as int, m as int, d as int) == calendar_of(nanos as int) && 1 <= m <= 12
            && 1 <= d <= 31,
{
    match time::OffsetDateTime::from_unix_timestamp_nanos(nanos) {
        Ok(t) => {
            let (y, m, d) = t.to_calendar_date();
            Some((y, u8::from(m), d))
        },
        Err(_) => None,
    }
}

/// Settings of the file sink.
pub struct FileConfig {
    /// Directory the files go in.
    pub path: String,
    /// Marker put after each line break of a message.
    pub lineReturn: String,
    /// Template of a line.
    pub lineFormat: String,
    /// One file per thread name.
    pub byThreadId: bool,
    /// One file per source file of the trace.
    pub bySrc: bool,
    /// One file per hour rather than per day.
    pub byHour: bool,
    /// Also one file of this name for every trace.
    pub forceInOneFile: Option<String>,
}

/// A year as the `[year]` component writes it: four digits at least, a sign
/// when negative or above 9999.
pub open spec fn year_text(y: int) -> Seq<char> {
    if y < 0 {
        seq!['-'] + padded((-y) as nat, 4)
    } else if y > 9999 {
        seq!['+'] + padded(y as nat, 5)
    } else {
        padded(y as nat, 4)
    }
}

/// `YYYYMMDD`, with `_HH` when files go by hour; eight zeros without a date.
pub open spec fn date_text(cal: Option<(i32, u8, u8)>, date: int, byHour: bool) -> Seq<char> {
    match cal {
        None => seq!['0', '0', '0', '0', '0', '0', '0', '0'],
        Some((y, m, d)) => year_text(y as int) + padded(m as nat, 2) + padded(d as nat, 2) + if byHour {
            seq!['_'] + padded(((date % day()) / 3_600_000_000) as nat, 2)
        } else {
            Seq::empty()
        },
    }
}

/// What follows the last '/' of `s` (all of `s` without one).
pub open spec fn after_last_slash(s: Seq<char>) -> Seq<char>
    decreases s.len(),
{
    if s.len() == 0 {
        s
    } else if s.last() == '/' {
        Seq::empty()
    } else {
        after_last_slash(s.drop_last()).push(s.last())
    }
}

/// What precedes the first '.' of `s` (all of `s` without one).
pub open spec fn before_first_dot(s: Seq<char>) -> Seq<char>
    decreases s.len(),
{
    if s.len() == 0 {
        s
    } else if s[0] == '.' {
        Seq::empty()
    } else {
        seq![s[0]] + before_first_dot(s.skip(1))
    }
}

/// The name of a source file without directory and extensions.
pub open spec fn file_stem(s: Seq<char>) -> Seq<char> {
    before_first_dot(after_last_slash(s))
}

pub open spec fn trc() -> Seq<char> {
    seq!['.', 't', 'r', 'c']
}

/// `dir/name_date.trc`.
pub open spec fn path_for(dir: Seq<char>, name: Seq<char>, dt: Seq<char>) -> Seq<char> {
    dir + seq!['/'] + name + seq!['_'] + dt + trc()
}

/// The files a record goes to, in order: the forced one, the one of its
/// source file, the one of its thread.
pub open spec fn paths_spec(
    c: FileConfig,
    cal: Option<(i32, u8, u8)>,
    date: int,
    filename: Seq<char>,
    thread: Option<Seq<char>>,
) -> Seq<Seq<char>> {
    let dt = date_text(cal, date, c.byHour);
    let forced = match c.forceInOneFile {
        Some(n) => seq![path_for(c.path@, n@, dt)],
        None => Seq::empty(),
    };
    let by_src = if c.bySrc { seq![path_for(c.path@, file_stem(filename), dt)] } else { Seq::empty() };
    let by_thread = if c.byThreadId {
        seq![path_for(c.path@, match thread { Some(t) => t, None => main_key() }, dt)]
    } else {
        Seq::empty()
    };
    forced + by_src + by_thread
}

pub open spec fn strings_view(v: Vec<String>) -> Seq<Seq<char>> {
    v@.map_values(|s: String| s@)
}

impl Default for FileConfig {
    /// Files under "./traces", one per thread and day, marker " | ", and the
    /// line `{time} {lvl} ({thread:>, }{file}:l{line}) : {msg}`.
    fn default() -> (r: FileConfig)
        ensures
            r.path@ == "./traces"@,
            r.lineReturn@ == " | "@,
            r.lineFormat@ == "{time} {lvl} ({thread:>, }{file}:l{line}) : {msg}"@,
            r.byThreadId && !r.bySrc && !r.byHour && r.forceInOneFile is None,
    {
        FileConfig {
            path: String::from_str("./traces"),
            lineReturn: String::from_str(" | "),
            lineFormat: String::from_str("{time} {lvl} ({thread:>, }{file}:l{line}) : {msg}"),
            byThreadId: true,
            bySrc: false,
            byHour: false,
            forceInOneFile: None,
        }
    }
}

/// The date part of a file name, given the calendar date of the record.
pub fn file_date_text(calendar: Option<(i32, u8, u8)>, date: i64, byHour: bool) -> (r: String)
    ensures
        r@ == date_text(calendar, date as int, byHour),
{
    let mut out: Vec<char> = Vec::new();
    match calendar {
        None => {
            let z = vec!['0', '0', '0', '0', '0', '0', '0', '0'];
            push_all(&mut out, &z);
            assert(out@ =~= date_text(calendar, date as int, byHour));
        },
        Some((y, m, d)) => {
            if y < 0 {
                out.push('-');
                push_padded(&mut out, (-(y as i64)) as u64, 4);
            } else if y > 9999 {
                out.push('+');
                push_padded(&mut out, y as u64, 5);
            } else {
                push_padded(&mut out, y as u64, 4);
            }
            push_padded(&mut out, m as u64, 2);
            push_padded(&mut out, d as u64, 2);
            if byHour {
                out.push('_');
                let h = day_hour(date);
                push_padded(&mut out, h, 2);
            }
            assert(out@ =~= date_text(calendar, date as int, byHour));
        },
    }
    string_of(&out)
}

fn day_hour(date: i64) -> (r: u64)
    ensures
        r as int == (date as int % day()) / 3_600_000_000,
{
    day_offset(date) / 3_600_000_000
}

fn stem_exec(s: &String) -> (r: Vec<char>)
    ensures
        r@ == file_stem(s@),
{
    let t = to_chars(s.as_str());
    let mut start: usize = 0;
    let mut i: usize = 0;
    while i < t.len()
        invariant
            i <= t@.len(),
            start <= i,
            t@.subrange(start as int, i as int) == after_last_slash(t@.subrange(0, i as int)),
        decreases t@.len() - i,
    {
        proof {
            assert(t@.subrange(0, i + 1).drop_last() =~= t@.subrange(0, i as int));
            assert(t@.subrange(0, i + 1).last() == t@[i as int]);
        }
        if t[i] == '/' {
            start = i + 1;
            assert(t@.subrange(start as int, i + 1) =~= Seq::<char>::empty());
        } else {
            assert(t@.subrange(start as int, i + 1) =~= t@.subrange(start as int, i as int).push(t@[i as int]));
        }
        i = i + 1;
    }
    assert(t@.subrange(0, t@.len() as int) =~= t@);
    let ghost seg = t@.subrange(start as int, t@.len() as int);
    let mut out: Vec<char> = Vec::new();
    let mut k: usize = start;
    while k < t.len() && t[k] != '.'
        invariant
            start <= k <= t@.len(),
            seg == t@.subrange(start as int, t@.len() as int),
            out@ + before_first_dot(t@.subrange(k as int, t@.len() as int)) == before_first_dot(seg),
        decreases t@.len() - k,
    {
        proof {
            let rest = t@.subrange(k as int, t@.len() as int);
            assert(rest.skip(1) =~= t@.subrange(k + 1, t@.len() as int));
            assert(rest[0] == t@[k as int]);
            assert(out@.push(t@[k as int]) + before_first_dot(rest.skip(1)) =~= out@ + before_first_dot(rest));
        }
        out.push(t[k]);
        k = k + 1;
    }
    proof {
        let rest = t@.subrange(k as int, t@.len() as int);
        if k < t@.len() {
            assert(rest[0] == '.');
        }
        assert(before_first_dot(rest) =~= Seq::<char>::empty());
        assert(out@ + Seq::<char>::empty() =~= out@);
    }
    out
}

fn push_path(out: &mut Vec<String>, dir: &String, name: &Vec<char>, dt: &String)
    ensures
        strings_view(*final(out)) == strings_view(*old(out)).push(path_for(dir@, name@, dt@)),
{
    let mut v: Vec<char> = Vec::new();
    push_str(&mut v, dir.as_str());
    v.push('/');
    push_all(&mut v, name);
    v.push('_');
    push_str(&mut v, dt.as_str());
    v.push('.');
    v.push('t');
    v.push('r');
    v.push('c');
    assert(v@ =~= path_for(dir@, name@, dt@));
    out.push(string_of(&v));
    assert(strings_view(*out) =~= strings_view(*old(out)).push(path_for(dir@, name@, dt@)));
}

/// The files a record goes to, given the calendar date of its timestamp.
pub fn file_paths(
    config: &FileConfig,
    calendar: Option<(i32, u8, u8)>,
    date: i64,
    filename: &String,
    thread: &Option<String>,
) -> (r: Vec<String>)
    ensures
        strings_view(r) == paths_spec(*config, calendar, date as int, filename@, opt_view(*thread)),
{
    let dt = file_date_text(calendar, date, config.byHour);
    let mut r: Vec<String> = Vec::new();
    match &config.forceInOneFile {
        Some(n) => {
            let nc = to_chars(n.as_str());
            push_path(&mut r, &config.path, &nc, &dt);
        },
        None => {},
    }
    let ghost r1 = strings_view(r);
    if config.bySrc {
        let stem = stem_exec(filename);
        push_path(&mut r, &config.path, &stem, &dt);
    }
    let ghost r2 = strings_view(r);
    if config.byThreadId {
        let name = match thread {
            Some(t) => to_chars(t.as_str()),
            None => to_chars(main_name().as_str()),
        };
        push_path(&mut r, &config.path, &name, &dt);
    }
    assert(strings_view(r) =~= paths_spec(*config, calendar, date as int, filename@, opt_view(*thread)));
    r
}

/// The files a record goes to, for the thread named `thread`: the calendar
/// date comes from the `time` crate, and the result is `file_paths` of that
/// date, or of none when the crate had none.
pub fn trace_file_paths(config: &FileConfig, trace: &OneTrace, thread: &Option<String>) -> (r: Vec<String>)
    ensures
        strings_view(r) == paths_spec(*config, None, trace.date as int, trace.filename@, opt_view(*thread))
            || ({
                let c = calendar_of(trace.date as int * 1000);
                strings_view(r) == paths_spec(
                    *config,
                    Some((c.0 as i32, c.1 as u8, c.2 as u8)),
                    trace.date as int,
                    trace.filename@,
                    opt_view(*thread),
                )
            }),
{
    let cal = calendar_date(trace.date as i128 * 1000);
    file_paths(config, cal, trace.date, &trace.filename, thread)
}

} // verus!
