//! The bridge from logging facades: their severities, the bridge's
//! decisions, and the text of a forwarded event.
use vstd::prelude::*;
use crate::level::{rank, Level};
use crate::text::{push_str, string_of};

verus! {

/// The five severities of the `log` and `tracing` facades.
#[derive(Clone, Copy, Debug, PartialEq, Eq, Structural, Hash)]
pub enum FacadeLevel {
    Error,
    Warn,
    Info,
    Debug,
    Trace,
}

/// The level a facade severity is traced at.
pub open spec fn from_facade(l: FacadeLevel) -> Level {
    match l {
        FacadeLevel::Error => Level::ERROR,
        FacadeLevel::Warn => Level::WARNING,
        FacadeLevel::Info => Level::NOTICE,
        FacadeLevel::Debug => Level::NORMAL,
        FacadeLevel::Trace => Level::DEBUG,
    }
}

/// The facade severity a level corresponds to.
pub open spec fn to_facade(l: Level) -> FacadeLevel {
    match l {
        Level::DEBUG => FacadeLevel::Trace,
        Level::DEBUGERR => FacadeLevel::Trace,
        Level::NORMAL => FacadeLevel::Debug,
        Level::NOTICE => FacadeLevel::Info,
        Level::NOTICEDERR => FacadeLevel::Info,
        Level::WARNING => FacadeLevel::Warn,
        Level::ERROR => FacadeLevel::Error,
        Level::FATAL => FacadeLevel::Error,
    }
}

fn facade_to_level(level: &FacadeLevel) -> (r: Level)
    ensures
        r == from_facade(*level),
{
    match level {
        FacadeLevel::Error => Level::ERROR,
        FacadeLevel::Warn => Level::WARNING,
        FacadeLevel::Info => Level::NOTICE,
        FacadeLevel::Debug => Level::NORMAL,
        FacadeLevel::Trace => Level::DEBUG,
    }
}

fn level_to_facade(level: &Level) -> (r: FacadeLevel)
    ensures
        r == to_facade(*level),
{
    match level {
        Level::DEBUG => FacadeLevel::Trace,
        Level::DEBUGERR => FacadeLevel::Trace,
        Level::NORMAL => FacadeLevel::Debug,
        Level::NOTICE => FacadeLevel::Info,
        Level::NOTICEDERR => FacadeLevel::Info,
        Level::WARNING => FacadeLevel::Warn,
        Level::ERROR => FacadeLevel::Error,
        Level::FATAL => FacadeLevel::Error,
    }
}

/// The level of a `log` severity.
pub fn LogLevelToHtraceMapper(level: &FacadeLevel) -> (r: Level)
    ensures
        r == from_facade(*level),
{
    facade_to_level(level)
}

/// The `log` severity of a level.
pub fn LogHtraceToLogLevelMapper(level: &Level) -> (r: FacadeLevel)
    ensures
        r == to_facade(*level),
{
    level_to_facade(level)
}

/// The level of a `tracing` severity.
pub fn TracingLevelToHtraceMapper(level: &FacadeLevel) -> (r: Level)
    ensures
        r == from_facade(*level),
{
    facade_to_level(level)
}

/// The `tracing` severity of a level.
pub fn HtraceToTracingLevelMapper(level: &Level) -> (r: FacadeLevel)
    ensures
        r == to_facade(*level),
{
    level_to_facade(level)
}

/// Going from a facade severity to a level and back gives the same
/// severity, and the mapping keeps the order of severities.
pub proof fn law_facade_round_trip(f: FacadeLevel, g: FacadeLevel)
    ensures
        to_facade(from_facade(f)) == f,
        rank(from_facade(f)) == rank(from_facade(g)) ==> f == g,
{
}

/// Which spans of the `tracing` facade let their events through.
pub enum HtraceBridgeSpanFilterList {
    /// Only these spans (an empty list denies all).
    Allow(Vec<String>),
    /// All spans but these (an empty list allows all).
    Deny(Vec<String>),
}

/// Settings of the bridge from the logging facades.
pub struct HtraceBridge {
    /// Least level that gets a backtrace; `None` for none.
    pub min_level_backtrace: Option<Level>,
    /// Least level forwarded from `log`.
    pub log_min_level: Level,
    /// Least level forwarded from `tracing`.
    pub tracing_min_level: Level,
    /// Span filter for `tracing`.
    pub tracing_filter_span: HtraceBridgeSpanFilterList,
}

pub open spec fn names_view(v: Vec<String>) -> Seq<Seq<char>> {
    v@.map_values(|s: String| s@)
}

/// Whether an event inside the span named `current` passes the filter; an
/// event outside any span always does.
pub open spec fn span_passes(f: HtraceBridgeSpanFilterList, current: Option<Seq<char>>) -> bool {
    match current {
        None => true,
        Some(n) => match f {
            HtraceBridgeSpanFilterList::Allow(l) => names_view(l).contains(n),
            HtraceBridgeSpanFilterList::Deny(l) => !names_view(l).contains(n),
        },
    }
}

fn list_contains(l: &Vec<String>, n: &String) -> (r: bool)
    ensures
        r == names_view(*l).contains(n@),
{
    let mut i: usize = 0;
    while i < l.len()
        invariant
            i <= l@.len(),
            forall|j: int| 0 <= j < i ==> l@[j]@ != n@,
        decreases l@.len() - i,
    {
        if l[i] == *n {
            assert(names_view(*l)[i as int] == n@);
            return true;
        }
        i = i + 1;
    }
    assert(!names_view(*l).contains(n@)) by {
        if names_view(*l).contains(n@) {
            let j = choose|j: int| 0 <= j < names_view(*l).len() && names_view(*l)[j] == n@;
            assert(l@[j]@ == n@);
        }
    }
    false
}

impl Default for HtraceBridge {
    /// The settings used when none are given: backtraces from WARNING on,
    /// every level forwarded, no span filtered.
    fn default() -> (r: HtraceBridge)
        ensures
            r.min_level_backtrace == Some(Level::WARNING),
            r.log_min_level == Level::DEBUG,
            r.tracing_min_level == Level::DEBUG,
            r.tracing_filter_span matches HtraceBridgeSpanFilterList::Deny(l) && l@.len() == 0,
    {
        HtraceBridge {
            min_level_backtrace: Some(Level::WARNING),
            log_min_level: Level::DEBUG,
            tracing_min_level: Level::DEBUG,
            tracing_filter_span: HtraceBridgeSpanFilterList::Deny(Vec::new()),
        }
    }
}

impl HtraceBridge {
    /// Whether a trace of `level` gets a backtrace.
    pub fn isBacktrace(&self, level: &Level) -> (r: bool)
        ensures
            r == match self.min_level_backtrace {
                Some(b) => rank(*level) >= rank(b),
                None => false,
            },
    {
        match self.min_level_backtrace {
            Some(b) => level.tou8() >= b.tou8(),
            None => false,
        }
    }

    /// Whether a `log` record of `level` is forwarded.
    pub fn isLog(&self, level: &Level) -> (r: bool)
        ensures
            r == (rank(*level) >= rank(self.log_min_level)),
    {
        level.tou8() >= self.log_min_level.tou8()
    }

    /// Whether a `tracing` event of `level` is forwarded.
    pub fn isTracing(&self, level: &Level) -> (r: bool)
        ensures
            r == (rank(*level) >= rank(self.tracing_min_level)),
    {
        level.tou8() >= self.tracing_min_level.tou8()
    }

    /// Whether an event in the span named `current` passes the span filter.
    pub fn span_allowed(&self, current: &Option<String>) -> (r: bool)
        ensures
            r == span_passes(self.tracing_filter_span, crate::context::opt_view(*current)),
    {
        match current {
            None => true,
            Some(n) => match &self.tracing_filter_span {
                HtraceBridgeSpanFilterList::Allow(l) => list_contains(l, n),
                HtraceBridgeSpanFilterList::Deny(l) => !list_contains(l, n),
            },
        }
    }
}

impl Default for HtraceBridgeSpanFilterList {
    fn default() -> (r: HtraceBridgeSpanFilterList)
        ensures
            r matches HtraceBridgeSpanFilterList::Deny(l) && l@.len() == 0,
    {
        HtraceBridgeSpanFilterList::Deny(Vec::new())
    }
}

/// What an event of the `tracing` facade carries: its message and its other
/// fields, in order.
pub struct Visitor {
    pub message: Option<String>,
    pub fields: Vec<(String, String)>,
}

pub open spec fn w_message() -> Seq<char> {
    seq!['m', 'e', 's', 's', 'a', 'g', 'e']
}

impl Visitor {
    pub fn new() -> (r: Visitor)
        ensures
            r.message is None,
            r.fields@.len() == 0,
    {
        Visitor { message: None, fields: Vec::new() }
    }

    /// Takes one field: the one named "message" is the message, the others
    /// are kept in order.
    pub fn record(&mut self, name: &str, value: String)
        ensures
            name@ == w_message() ==> final(self).message == Some(value) && final(self).fields == old(self).fields,
            name@ != w_message() ==> final(self).message == old(self).message
                && final(self).fields@.len() == old(self).fields@.len() + 1
                && final(self).fields@.drop_last() == old(self).fields@
                && final(self).fields@.last().0@ == name@ && final(self).fields@.last().1 == value,
    {
        let n = String::from_str(name);
        let m = string_of(&vec!['m', 'e', 's', 's', 'a', 'g', 'e']);
        if n == m {
            self.message = Some(value);
        } else {
            self.fields.push((n, value));
            assert(self.fields@.drop_last() =~= old(self).fields@);
        }
    }
}

/// `k=v` for each field, separated by ", ".
pub open spec fn fields_text(fs: Seq<(String, String)>) -> Seq<char>
    decreases fs.len(),
{
    if fs.len() == 0 {
        Seq::empty()
    } else {
        let head = fields_text(fs.drop_last());
        let sep = if fs.len() > 1 { seq![',', ' '] } else { Seq::empty() };
        head + sep + fs.last().0@ + seq!['='] + fs.last().1@
    }
}

pub open spec fn no_message_text() -> Seq<char> {
    seq!['<', 'n', 'o', ' ', 'm', 'e', 's', 's', 'a', 'g', 'e', '>']
}

/// The text traced for an event: its message (or "<no message>"), then,
/// when it has other fields, ` {k=v, ...}`.
pub open spec fn event_text(message: Option<Seq<char>>, fs: Seq<(String, String)>) -> Seq<char> {
    let m = match message {
        Some(s) => s,
        None => no_message_text(),
    };
    if fs.len() > 0 {
        m + seq![' ', '{'] + fields_text(fs) + seq!['}']
    } else {
        m
    }
}

/// The text traced for the event a visitor collected.
pub fn event_message(v: &Visitor) -> (r: String)
    ensures
        r@ == event_text(crate::context::opt_view(v.message), v.fields@),
{
    let mut out: Vec<char> = Vec::new();
    match &v.message {
        Some(m) => push_str(&mut out, m.as_str()),
        None => {
            let d = vec!['<', 'n', 'o', ' ', 'm', 'e', 's', 's', 'a', 'g', 'e', '>'];
            crate::text::push_all(&mut out, &d);
            assert(d@ =~= no_message_text());
        },
    }
    let ghost m = out@;
    if v.fields.len() > 0 {
        out.push(' ');
        out.push('{');
        let ghost head = out@;
        let mut i: usize = 0;
        while i < v.fields.len()
            invariant
                i <= v.fields@.len(),
                out@ == head + fields_text(v.fields@.subrange(0, i as int)),
            decreases v.fields@.len() - i,
        {
            if i > 0 {
                out.push(',');
                out.push(' ');
            }
            push_str(&mut out, v.fields[i].0.as_str());
            out.push('=');
            push_str(&mut out, v.fields[i].1.as_str());
            proof {
                let fs = v.fields@.subrange(0, i + 1);
                assert(fs.drop_last() =~= v.fields@.subrange(0, i as int));
            }
            i = i + 1;
            assert(out@ =~= head + fields_text(v.fields@.subrange(0, i as int)));
        }
        out.push('}');
        assert(v.fields@.subrange(0, v.fields@.len() as int) =~= v.fields@);
        assert(out@ =~= event_text(crate::context::opt_view(v.message), v.fields@));
    }
    string_of(&out)
}

/// Names joined by "::".
pub open spec fn path_text(ns: Seq<Seq<char>>) -> Seq<char>
    decreases ns.len(),
{
    if ns.len() == 0 {
        Seq::empty()
    } else if ns.len() == 1 {
        ns[0]
    } else {
        path_text(ns.drop_last()) + seq![':', ':'] + ns.last()
    }
}

/// The names of the spans around an event, from the root, joined by "::".
pub fn span_path(names: &Vec<String>) -> (r: String)
    ensures
        r@ == path_text(names_view(*names)),
{
    let mut out: Vec<char> = Vec::new();
    let mut i: usize = 0;
    while i < names.len()
        invariant
            i <= names@.len(),
            out@ == path_text(names_view(*names).subrange(0, i as int)),
        decreases names@.len() - i,
    {
        if i > 0 {
            out.push(':');
            out.push(':');
        }
        push_str(&mut out, names[i].as_str());
        proof {
            let ns = names_view(*names).subrange(0, i + 1);
            assert(ns.drop_last() =~= names_view(*names).subrange(0, i as int));
            if i == 0 {
                assert(out@ =~= ns[0]);
            }
        }
        i = i + 1;
        assert(out@ =~= path_text(names_view(*names).subrange(0, i as int)));
    }
    assert(names_view(*names).subrange(0, names@.len() as int) =~= names_view(*names));
    string_of(&out)
}

} // verus!
