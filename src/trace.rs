//! Trace records and backtrace frames.
use vstd::prelude::*;
use crate::context::Context;
use crate::level::Level;
use crate::text::{decimal, push_decimal, push_str, string_of};

verus! {

/// One frame of a captured backtrace, as the record carries it.
pub struct Hbacktrace {
    pub funcName: String,
    pub fileName: Option<String>,
    pub line: Option<u32>,
}

/// One frame whose file and line are known.
pub struct Backtrace {
    pub funcName: String,
    pub fileName: String,
    pub line: u32,
}

/// `file(line): function`.
pub open spec fn located_text(file: Seq<char>, line: nat, func: Seq<char>) -> Seq<char> {
    file + seq!['('] + decimal(line) + seq![')', ':', ' '] + func
}

/// How a frame is rendered: its location and function where both file and
/// line are known, else `- function`.
pub open spec fn frame_text(f: Hbacktrace) -> Seq<char> {
    match (f.fileName, f.line) {
        (Some(file), Some(line)) => located_text(file@, line as nat, f.funcName@),
        _ => seq!['-', ' '] + f.funcName@,
    }
}

pub(crate) fn push_located(out: &mut Vec<char>, file: &String, line: u32, func: &String)
    ensures
        final(out)@ == old(out)@ + located_text(file@, line as nat, func@),
{
    push_str(out, file.as_str());
    out.push('(');
    push_decimal(out, line as u64);
    out.push(')');
    out.push(':');
    out.push(' ');
    push_str(out, func.as_str());
    assert(out@ =~= old(out)@ + located_text(file@, line as nat, func@));
}

pub(crate) fn push_frame(out: &mut Vec<char>, f: &Hbacktrace)
    ensures
        final(out)@ == old(out)@ + frame_text(*f),
{
    match (&f.fileName, &f.line) {
        (Some(file), Some(line)) => push_located(out, file, *line, &f.funcName),
        _ => {
            out.push('-');
            out.push(' ');
            push_str(out, f.funcName.as_str());
            assert(out@ =~= old(out)@ + frame_text(*f));
        },
    }
}

impl Hbacktrace {
    /// The frame as one line of text.
    pub fn to_string(&self) -> (r: String)
        ensures
            r@ == frame_text(*self),
    {
        let mut out: Vec<char> = Vec::new();
        push_frame(&mut out, self);
        string_of(&out)
    }
}

impl Backtrace {
    /// `file(line): function`.
    pub fn to_string(&self) -> (r: String)
        ensures
            r@ == located_text(self.fileName@, self.line as nat, self.funcName@),
    {
        let mut out: Vec<char> = Vec::new();
        push_located(&mut out, &self.fileName, self.line, &self.funcName);
        assert(out@ =~= located_text(self.fileName@, self.line as nat, self.funcName@));
        string_of(&out)
    }
}

/// One emitted trace event. `date` counts microseconds since the Unix epoch
/// (UTC); `context` is the resolved context at the time of the call.
pub struct OneTrace {
    pub message: String,
    pub date: i64,
    pub level: Level,
    pub context: Context,
    pub filename: String,
    pub fileline: u32,
    pub backtraces: Vec<Hbacktrace>,
}

} // verus!
