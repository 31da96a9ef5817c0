//! The parameters a compiled template reads, built from a trace record.
use vstd::prelude::*;
use crate::context::ContextView;
use crate::formater::{has_at, has_word, w_context, w_extra_key, w_file, w_line, w_lvl, w_msg, w_thread, w_time};
use crate::keyed::KeyedMap;
use crate::level::level_code;
use crate::trace::{frame_text, push_frame, Hbacktrace, OneTrace};
use crate::text::{decimal, padded, push_all, push_decimal, push_padded, push_str, string_of, to_chars};

verus! {

/// `s` with every occurrence of `pat`, taken left to right without overlap,
/// replaced by `by`.
pub open spec fn replace_spec(s: Seq<char>, pat: Seq<char>, by: Seq<char>) -> Seq<char>
    decreases s.len(),
{
    if s.len() == 0 {
        Seq::empty()
    } else if pat.len() > 0 && has_at(s, 0, pat) {
        by + replace_spec(s.skip(pat.len() as int), pat, by)
    } else {
        seq![s[0]] + replace_spec(s.skip(1), pat, by)
    }
}

pub open spec fn s_lf() -> Seq<char> { seq!['\n'] }
pub open spec fn s_crlf() -> Seq<char> { seq!['\r', '\n'] }
pub open spec fn s_cr() -> Seq<char> { seq!['\r'] }
pub open spec fn s_esc_nr() -> Seq<char> { seq!['\\', 'n', '\\', 'r'] }
pub open spec fn s_esc_r() -> Seq<char> { seq!['\\', 'r'] }
pub open spec fn s_esc_n() -> Seq<char> { seq!['\\', 'n'] }

/// Every line break of `m` ("\r\n", "\r", and the escapes `\n\r`, `\r`,
/// `\n`) folded into "\n".
pub open spec fn fold_breaks(m: Seq<char>) -> Seq<char> {
    replace_spec(
        replace_spec(
            replace_spec(
                replace_spec(replace_spec(m, s_crlf(), s_lf()), s_esc_nr(), s_lf()),
                s_cr(),
                s_lf(),
            ),
            s_esc_r(),
            s_lf(),
        ),
        s_esc_n(),
        s_lf(),
    )
}

/// One line per frame, each opened by a line break and the marker.
pub open spec fn frames_text(fs: Seq<Hbacktrace>, marker: Seq<char>) -> Seq<char>
    decreases fs.len(),
{
    if fs.len() == 0 {
        Seq::empty()
    } else {
        frames_text(fs.drop_last(), marker) + s_lf() + marker + frame_text(fs.last())
    }
}

pub open spec fn s_with() -> Seq<char> { seq![',', ' ', 'w', 'i', 't', 'h', ' ', ':', ' '] }

/// The rendered message: breaks folded, each break followed by the marker,
/// and the backtrace lines appended when there are frames.
pub open spec fn message_text(m: Seq<char>, fs: Seq<Hbacktrace>, marker: Seq<char>) -> Seq<char> {
    let body = replace_spec(fold_breaks(m), s_lf(), s_lf() + marker);
    if fs.len() > 0 {
        body + s_with() + frames_text(fs, marker)
    } else {
        body
    }
}

/// Microseconds in a day.
pub open spec fn day() -> int { 86_400_000_000 }

/// `HH:MM:SS.ffffff`, the time of day (UTC) of a count of microseconds since
/// the Unix epoch.
pub open spec fn clock_text(us: int) -> Seq<char> {
    let d = us % day();
    padded((d / 3_600_000_000) as nat, 2) + seq![':'] + padded(((d / 60_000_000) % 60) as nat, 2)
        + seq![':'] + padded(((d / 1_000_000) % 60) as nat, 2) + seq!['.']
        + padded((d % 1_000_000) as nat, 6)
}

pub open spec fn or_empty(o: Option<Seq<char>>) -> Seq<char> {
    match o {
        Some(s) => s,
        None => Seq::empty(),
    }
}

/// `p` holds exactly the parameters of record `t`: time, lvl, thread,
/// context, file, line and msg, and `extra:<key>` for each extra.
pub open spec fn params_of(p: Map<Seq<char>, Seq<char>>, t: OneTrace, marker: Seq<char>) -> bool {
    let c: ContextView = t.context@;
    &&& p.contains_key(w_time()) && p[w_time()] == clock_text(t.date as int)
    &&& p.contains_key(w_lvl()) && p[w_lvl()] == level_code(t.level)
    &&& p.contains_key(w_thread()) && p[w_thread()] == or_empty(c.thread_name)
    &&& p.contains_key(w_context()) && p[w_context()] == or_empty(c.name)
    &&& p.contains_key(w_file()) && p[w_file()] == t.filename@
    &&& p.contains_key(w_line()) && p[w_line()] == decimal(t.fileline as nat)
    &&& p.contains_key(w_msg()) && p[w_msg()] == message_text(t.message@, t.backtraces@, marker)
    &&& forall|k: Seq<char>| #[trigger] c.extras.contains_key(k) ==> p.contains_key(w_extra_key() + k)
        && p[w_extra_key() + k] == c.extras[k]
    &&& forall|k: Seq<char>| #[trigger] p.contains_key(k) ==> k == w_time() || k == w_lvl() || k == w_thread()
        || k == w_context() || k == w_file() || k == w_line() || k == w_msg() || exists|e: Seq<char>|
        c.extras.contains_key(e) && k == w_extra_key() + e
}

/// Replaces every occurrence of `pat` in `s`, left to right, by `by`.
pub fn replace_chars(s: &Vec<char>, pat: &Vec<char>, by: &Vec<char>) -> (r: Vec<char>)
    requires
        pat@.len() > 0,
    ensures
        r@ == replace_spec(s@, pat@, by@),
{
    let n = s.len();
    let mut out: Vec<char> = Vec::new();
    let mut i: usize = 0;
    assert(s@.skip(0) =~= s@);
    assert(out@ + s@ =~= s@);
    while i < n
        invariant
            n == s@.len(),
            pat@.len() > 0,
            i <= n,
            out@ + replace_spec(s@.skip(i as int), pat@, by@) == replace_spec(s@, pat@, by@),
        decreases n - i,
    {
        let ghost rest = s@.skip(i as int);
        if has_word(s, i, pat) {
            proof {
                assert(rest.subrange(0, pat@.len() as int) =~= s@.subrange(i as int, i + pat@.len()));
                assert(rest.skip(pat@.len() as int) =~= s@.skip(i + pat@.len()));
                assert(out@ + by@ + replace_spec(s@.skip(i + pat@.len()), pat@, by@) =~= out@ + replace_spec(rest, pat@, by@));
            }
            push_all(&mut out, by);
            i = i + pat.len();
        } else {
            proof {
                assert(!has_at(rest, 0, pat@)) by {
                    if has_at(rest, 0, pat@) {
                        assert(rest.subrange(0, pat@.len() as int) =~= s@.subrange(i as int, i + pat@.len()));
                    }
                }
                assert(rest.skip(1) =~= s@.skip(i + 1));
                assert(out@.push(s@[i as int]) + replace_spec(s@.skip(i + 1), pat@, by@) =~= out@ + replace_spec(rest, pat@, by@));
            }
            out.push(s[i]);
            i = i + 1;
        }
    }
    assert(s@.skip(n as int) =~= Seq::<char>::empty());
    assert(out@ + Seq::<char>::empty() =~= out@);
    out
}

/// Microseconds since midnight (UTC) of a count of microseconds since the epoch.
pub(crate) fn day_offset(date: i64) -> (r: u64)
    ensures
        r as int == date as int % day(),
        r < 86_400_000_000,
{
    let d: u64 = 86_400_000_000;
    if date >= 0 {
        (date as u64) % d
    } else {
        let p: u64 = (-(date as i128)) as u64;
        let q = p % d;
        let ghost x = date as int;
        if q == 0 {
            assert(x % day() == 0) by (nonlinear_arith)
                requires
                    (-x) % 86_400_000_000 == 0, x < 0,
            {
            }
            0
        } else {
            assert(x % day() == 86_400_000_000 - (-x) % 86_400_000_000) by (nonlinear_arith)
                requires
                    (-x) % 86_400_000_000 != 0, x < 0,
            {
            }
            d - q
        }
    }
}

/// Appends `HH:MM:SS.ffffff` for `date`.
fn push_clock(out: &mut Vec<char>, date: i64)
    ensures
        final(out)@ == old(out)@ + clock_text(date as int),
{
    let d = day_offset(date);
    push_padded(out, d / 3_600_000_000, 2);
    out.push(':');
    push_padded(out, (d / 60_000_000) % 60, 2);
    out.push(':');
    push_padded(out, (d / 1_000_000) % 60, 2);
    out.push('.');
    push_padded(out, d % 1_000_000, 6);
    assert(out@ =~= old(out)@ + clock_text(date as int));
}

/// The rendered message of a record (see `message_text`).
pub fn message_of(message: &String, backtraces: &Vec<Hbacktrace>, lineReturn: &String) -> (r: Vec<char>)
    ensures
        r@ == message_text(message@, backtraces@, lineReturn@),
{
    let lf = vec!['\n'];
    let m0 = to_chars(message.as_str());
    let crlf = vec!['\r', '\n'];
    let esc_nr = vec!['\\', 'n', '\\', 'r'];
    let cr = vec!['\r'];
    let esc_r = vec!['\\', 'r'];
    let esc_n = vec!['\\', 'n'];
    assert(lf@ =~= s_lf());
    assert(crlf@ =~= s_crlf());
    assert(esc_nr@ =~= s_esc_nr());
    assert(cr@ =~= s_cr());
    assert(esc_r@ =~= s_esc_r());
    assert(esc_n@ =~= s_esc_n());
    let m1 = replace_chars(&m0, &crlf, &lf);
    let m2 = replace_chars(&m1, &esc_nr, &lf);
    let m3 = replace_chars(&m2, &cr, &lf);
    let m4 = replace_chars(&m3, &esc_r, &lf);
    let m5 = replace_chars(&m4, &esc_n, &lf);
    let mut marked = vec!['\n'];
    push_str(&mut marked, lineReturn.as_str());
    assert(marked@ =~= s_lf() + lineReturn@);
    let mut body = replace_chars(&m5, &lf, &marked);
    if backtraces.len() > 0 {
        let with = vec![',', ' ', 'w', 'i', 't', 'h', ' ', ':', ' '];
        assert(with@ =~= s_with());
        push_all(&mut body, &with);
        let ghost head = body@;
        let mut i: usize = 0;
        while i < backtraces.len()
            invariant
                i <= backtraces@.len(),
                body@ == head + frames_text(backtraces@.subrange(0, i as int), lineReturn@),
            decreases backtraces@.len() - i,
        {
            body.push('\n');
            push_str(&mut body, lineReturn.as_str());
            push_frame(&mut body, &backtraces[i]);
            proof {
                let fs = backtraces@.subrange(0, i + 1);
                assert(fs.drop_last() =~= backtraces@.subrange(0, i as int));
            }
            i = i + 1;
            assert(body@ =~= head + frames_text(backtraces@.subrange(0, i as int), lineReturn@));
        }
        assert(backtraces@.subrange(0, backtraces@.len() as int) =~= backtraces@);
    }
    body
}

proof fn lemma_extra_key(e: Seq<char>)
    ensures
        w_extra_key() + e != w_time(),
        w_extra_key() + e != w_lvl(),
        w_extra_key() + e != w_thread(),
        w_extra_key() + e != w_context(),
        w_extra_key() + e != w_file(),
        w_extra_key() + e != w_line(),
        w_extra_key() + e != w_msg(),
        forall|e2: Seq<char>| w_extra_key() + e == #[trigger] (w_extra_key() + e2) ==> e == e2,
{
    let x = w_extra_key() + e;
    assert(x[5] == ':');
    assert(w_thread()[5] == 'd');
    assert(w_context()[5] == 'x');
    assert forall|e2: Seq<char>| w_extra_key() + e == #[trigger] (w_extra_key() + e2) implies e == e2 by {
        assert(e =~= (w_extra_key() + e).skip(6));
        assert(e2 =~= (w_extra_key() + e2).skip(6));
    }
}

/// The parameters of `trace` for a compiled template; `lineReturn` is the
/// marker put after each line break of the message.
pub fn FormaterParamBuilder(trace: &OneTrace, lineReturn: &String) -> (r: KeyedMap<String>)
    requires
        trace.context.wf(),
    ensures
        r.wf(),
        params_of(r@.map_values(|s: String| s@), *trace, lineReturn@),
{
    let ghost c = trace.context@;
    let k_time = vec!['t', 'i', 'm', 'e'];
    let k_lvl = vec!['l', 'v', 'l'];
    let k_thread = vec!['t', 'h', 'r', 'e', 'a', 'd'];
    let k_context = vec!['c', 'o', 'n', 't', 'e', 'x', 't'];
    let k_file = vec!['f', 'i', 'l', 'e'];
    let k_line = vec!['l', 'i', 'n', 'e'];
    let k_msg = vec!['m', 's', 'g'];
    assert(k_time@ =~= w_time());
    assert(k_lvl@ =~= w_lvl());
    assert(k_thread@ =~= w_thread());
    assert(k_context@ =~= w_context());
    assert(k_file@ =~= w_file());
    assert(k_line@ =~= w_line());
    assert(k_msg@ =~= w_msg());
    let mut p: KeyedMap<String> = KeyedMap::new();
    let mut v: Vec<char> = Vec::new();
    push_clock(&mut v, trace.date);
    p.insert(string_of(&k_time), string_of(&v));
    p.insert(string_of(&k_lvl), trace.level.convert4LengthString());
    assert(w_time().len() != w_lvl().len());
    assert(p@[w_time()]@ == clock_text(trace.date as int));
    let thread = match trace.context.threadName_get() {
        Some(t) => t.clone(),
        None => String::new(),
    };
    p.insert(string_of(&k_thread), thread);
    assert(w_time().len() != w_thread().len() && w_lvl().len() != w_thread().len());
    assert(p@[w_time()]@ == clock_text(trace.date as int));
    assert(p@[w_lvl()]@ == level_code(trace.level));
    let label = match trace.context.name_get() {
        Some(t) => t.clone(),
        None => String::new(),
    };
    p.insert(string_of(&k_context), label);
    assert(w_time().len() != w_context().len() && w_lvl().len() != w_context().len());
    assert(p@[w_time()]@ == clock_text(trace.date as int));
    assert(p@[w_lvl()]@ == level_code(trace.level));
    p.insert(string_of(&k_file), trace.filename.clone());
    assert(w_time()[0] != w_file()[0] && w_lvl().len() != w_file().len());
    assert(p@[w_time()]@ == clock_text(trace.date as int));
    assert(p@[w_lvl()]@ == level_code(trace.level));
    let mut ln: Vec<char> = Vec::new();
    push_decimal(&mut ln, trace.fileline as u64);
    p.insert(string_of(&k_line), string_of(&ln));
    assert(w_time()[0] != w_line()[0] && w_lvl().len() != w_line().len());
    assert(p@[w_time()]@ == clock_text(trace.date as int));
    assert(p@[w_lvl()]@ == level_code(trace.level));
    let ghost base = p@;
    let extras = trace.context.extra_getAll();
    let n = extras.len();
    proof {
        extras.lemma_entries();
    }
    let mut i: usize = 0;
    while i < n
        invariant
            extras.wf(),
            n == extras.key_seq().len(),
            i <= n,
            p.wf(),
            extras@.map_values(|s: String| s@) == c.extras,
            forall|k: Seq<char>| #[trigger] base.contains_key(k) ==> p@.contains_key(k) && p@[k] == base[k],
            forall|k: Seq<char>| #[trigger] base.contains_key(k) ==> k == w_time() || k == w_lvl() || k == w_thread()
                || k == w_context() || k == w_file() || k == w_line(),
            base.contains_key(w_time()) && base[w_time()]@ == clock_text(trace.date as int),
            base.contains_key(w_lvl()) && base[w_lvl()]@ == level_code(trace.level),
            base.contains_key(w_thread()) && base[w_thread()]@ == or_empty(c.thread_name),
            base.contains_key(w_context()) && base[w_context()]@ == or_empty(c.name),
            base.contains_key(w_file()) && base[w_file()]@ == trace.filename@,
            base.contains_key(w_line()) && base[w_line()]@ == decimal(trace.fileline as nat),
            forall|j: int| 0 <= j < i ==> p@.contains_key(w_extra_key() + #[trigger] extras.key_seq()[j])
                && p@[w_extra_key() + extras.key_seq()[j]]@ == c.extras[extras.key_seq()[j]],
            forall|k: Seq<char>| #[trigger] p@.contains_key(k) ==> base.contains_key(k) || exists|j: int|
                0 <= j < i && k == w_extra_key() + extras.key_seq()[j],
        decreases n - i,
    {
        let mut key = vec!['e', 'x', 't', 'r', 'a', ':'];
        push_str(&mut key, extras.key_at(i).as_str());
        let val = extras.value_at(i).clone();
        let ghost ks = extras.key_seq();
        proof {
            extras.lemma_entries();
            lemma_extra_key(ks[i as int]);
            assert(key@ == w_extra_key() + ks[i as int]);
            assert forall|j: int| 0 <= j < i implies w_extra_key() + ks[j] != key@ by {
                if w_extra_key() + ks[j] == key@ {
                    assert(ks[j] == ks[i as int]);
                }
            }
            assert(extras@.contains_key(ks[i as int]));
            assert(val == extras@[ks[i as int]]);
            assert(c.extras.contains_key(ks[i as int]));
            assert(val@ == c.extras[ks[i as int]]);
        }
        p.insert(string_of(&key), val);
        i = i + 1;
    }
    proof {
        extras.lemma_entries();
        assert forall|k: Seq<char>| #[trigger] c.extras.contains_key(k) implies p@.contains_key(w_extra_key() + k)
            && p@[w_extra_key() + k]@ == c.extras[k] by {
            assert(extras@.contains_key(k));
            let j = choose|j: int| 0 <= j < extras.key_seq().len() && extras.key_seq()[j] == k;
            assert(p@.contains_key(w_extra_key() + extras.key_seq()[j]));
        }
        lemma_extra_key(Seq::empty());
        assert forall|j: int| 0 <= j < n implies w_extra_key() + extras.key_seq()[j] != w_msg() by {
            lemma_extra_key(extras.key_seq()[j]);
        }
    }
    let msg = message_of(&trace.message, &trace.backtraces, lineReturn);
    let ghost before_msg = p@;
    p.insert(string_of(&k_msg), string_of(&msg));
    proof {
        let pm = p@.map_values(|s: String| s@);
        assert(w_time().len() != w_msg().len() && w_lvl()[0] != w_msg()[0]);
        assert(before_msg.contains_key(w_time()) && before_msg.contains_key(w_lvl()));
        assert(pm.contains_key(w_time()) && pm[w_time()] == clock_text(trace.date as int));
        assert(pm.contains_key(w_lvl()) && pm[w_lvl()] == level_code(trace.level));
        assert(pm.contains_key(w_thread()) && pm[w_thread()] == or_empty(c.thread_name));
        assert(pm.contains_key(w_context()) && pm[w_context()] == or_empty(c.name));
        assert(pm.contains_key(w_file()) && pm[w_file()] == trace.filename@);
        assert(pm.contains_key(w_line()) && pm[w_line()] == decimal(trace.fileline as nat));
        assert(pm.contains_key(w_msg()));
        assert forall|k: Seq<char>| #[trigger] c.extras.contains_key(k) implies pm.contains_key(w_extra_key() + k)
            && pm[w_extra_key() + k] == c.extras[k] by {
            lemma_extra_key(k);
            assert(before_msg.contains_key(w_extra_key() + k));
        }
        assert forall|k: Seq<char>| #[trigger] pm.contains_key(k) implies k == w_time() || k == w_lvl() || k == w_thread()
            || k == w_context() || k == w_file() || k == w_line() || k == w_msg() || exists|e: Seq<char>|
            c.extras.contains_key(e) && k == w_extra_key() + e by {
            if k != w_msg() && !base.contains_key(k) {
                assert(before_msg.contains_key(k));
                let j = choose|j: int| 0 <= j < n && k == w_extra_key() + extras.key_seq()[j];
                extras.lemma_entries();
                assert(c.extras.contains_key(extras.key_seq()[j]));
            }
        }
    }
    p
}

} // verus!
