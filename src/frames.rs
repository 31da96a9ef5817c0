//! Selection of the frames of a captured call stack that a record keeps.
use vstd::prelude::*;
use crate::formater::has_at;
use crate::params::or_empty;
use crate::trace::Hbacktrace;
use crate::text::{string_of, to_chars};

verus! {

/// What symbol resolution gave for one symbol of a frame.
pub struct RawSymbol {
    pub name: Option<String>,
    pub file: Option<String>,
    pub line: Option<u32>,
}

/// The last position at or before `p` where "::" starts in `s`.
pub open spec fn last_from(s: Seq<char>, p: int) -> Option<int>
    decreases p + 1,
{
    if p < 0 {
        None
    } else if has_at(s, p, seq![':', ':']) {
        Some(p)
    } else {
        last_from(s, p - 1)
    }
}

/// The last position where "::" starts in `s`.
pub open spec fn last_sep(s: Seq<char>) -> Option<int> {
    last_from(s, s.len() - 2)
}

/// The function name shown for a symbol: the path without its last segment,
/// followed by "()"; none when the name has no "::".
pub open spec fn func_of(name: Seq<char>) -> Option<Seq<char>> {
    match last_sep(name) {
        Some(p) => Some(name.subrange(0, p) + seq!['(', ')']),
        None => None,
    }
}

/// What a frame resolves to, each field from the last symbol that gave it:
/// (function name or none, file, line).
pub struct FrameView {
    pub func: Option<Seq<char>>,
    pub file: Option<Seq<char>>,
    pub line: Option<u32>,
}

pub open spec fn fold_symbols(syms: Seq<RawSymbol>) -> FrameView
    decreases syms.len(),
{
    if syms.len() == 0 {
        FrameView { func: None, file: None, line: None }
    } else {
        let acc = fold_symbols(syms.drop_last());
        let s = syms.last();
        let f = match s.name {
            Some(n) => match func_of(n@) {
                Some(x) => Some(x),
                None => acc.func,
            },
            None => acc.func,
        };
        FrameView {
            func: f,
            file: match s.file { Some(x) => Some(x@), None => acc.file },
            line: match s.line { Some(x) => Some(x), None => acc.line },
        }
    }
}

pub open spec fn ends_with(s: Seq<char>, e: Seq<char>) -> bool {
    e.len() <= s.len() && s.subrange(s.len() - e.len(), s.len() as int) == e
}

pub open spec fn rustc_prefix() -> Seq<char> {
    seq!['/', 'r', 'u', 's', 't', 'c', '/']
}

/// The frame is kept once past the caller's file: it names a function and is
/// not in the standard library's sources.
pub open spec fn keeps(f: FrameView) -> bool {
    f.func is Some && !has_at(or_empty(f.file), 0, rustc_prefix())
}

/// Index of the first frame from `i` on whose file ends with `base`, or the
/// number of frames when there is none.
pub open spec fn first_from(fs: Seq<FrameView>, base: Seq<char>, i: int) -> int
    decreases fs.len() - i,
{
    if i >= fs.len() || i < 0 {
        fs.len() as int
    } else if ends_with(or_empty(fs[i].file), base) {
        i
    } else {
        first_from(fs, base, i + 1)
    }
}

/// Index of the first frame in the caller's file `base`.
pub open spec fn first_own(fs: Seq<FrameView>, base: Seq<char>) -> int {
    first_from(fs, base, 0)
}

/// The frames kept, in order, from the first frame in the caller's file on.
pub open spec fn selected(fs: Seq<FrameView>, from: int) -> Seq<FrameView>
    decreases fs.len() - from,
{
    if from >= fs.len() || from < 0 {
        Seq::empty()
    } else if keeps(fs[from]) {
        seq![fs[from]] + selected(fs, from + 1)
    } else {
        selected(fs, from + 1)
    }
}

pub open spec fn frame_of(f: FrameView) -> (Seq<char>, Option<Seq<char>>, Option<u32>) {
    (or_empty(f.func), f.file, f.line)
}

pub open spec fn hb_view(h: Hbacktrace) -> (Seq<char>, Option<Seq<char>>, Option<u32>) {
    (h.funcName@, crate::context::opt_view(h.fileName), h.line)
}

fn func_exec(name: &String) -> (r: Option<String>)
    ensures
        match func_of(name@) {
            Some(x) => r matches Some(s) && s@ == x,
            None => r is None,
        },
{
    let t = to_chars(name.as_str());
    let n = t.len();
    if n < 2 {
        assert(last_from(name@, n - 2) is None);
        return None;
    }
    let mut p: usize = n - 1;
    while p > 0
        invariant
            p <= n - 1,
            n == t@.len(),
            t@ == name@,
            last_sep(name@) == last_from(name@, p - 1),
        decreases p,
    {
        let c = p - 1;
        if t[c] == ':' && t[c + 1] == ':' {
            proof {
                assert(name@.subrange(c as int, c + 2) =~= seq![':', ':']);
            }
            let mut v: Vec<char> = Vec::new();
            let mut k: usize = 0;
            while k < c
                invariant
                    k <= c,
                    c < n,
                    n == t@.len(),
                    v@ == t@.subrange(0, k as int),
                decreases c - k,
            {
                v.push(t[k]);
                k = k + 1;
                assert(v@ =~= t@.subrange(0, k as int));
            }
            v.push('(');
            v.push(')');
            assert(v@ =~= name@.subrange(0, c as int) + seq!['(', ')']);
            return Some(string_of(&v));
        }
        proof {
            if has_at(name@, c as int, seq![':', ':']) {
                assert(name@.subrange(c as int, c + 2)[0] == name@[c as int]);
                assert(name@.subrange(c as int, c + 2)[1] == name@[c + 1]);
            }
        }
        p = c;
    }
    None
}

fn fold_exec(syms: &Vec<RawSymbol>) -> (r: (Option<String>, Option<String>, Option<u32>))
    ensures
        crate::context::opt_view(r.0) == fold_symbols(syms@).func,
        crate::context::opt_view(r.1) == fold_symbols(syms@).file,
        r.2 == fold_symbols(syms@).line,
{
    let mut func: Option<String> = None;
    let mut file: Option<String> = None;
    let mut line: Option<u32> = None;
    let mut i: usize = 0;
    while i < syms.len()
        invariant
            i <= syms@.len(),
            crate::context::opt_view(func) == fold_symbols(syms@.subrange(0, i as int)).func,
            crate::context::opt_view(file) == fold_symbols(syms@.subrange(0, i as int)).file,
            line == fold_symbols(syms@.subrange(0, i as int)).line,
        decreases syms@.len() - i,
    {
        let s = &syms[i];
        proof {
            assert(syms@.subrange(0, i + 1).drop_last() =~= syms@.subrange(0, i as int));
        }
        match &s.name {
            Some(n) => match func_exec(n) {
                Some(x) => {
                    func = Some(x);
                },
                None => {},
            },
            None => {},
        }
        match &s.file {
            Some(x) => {
                file = Some(x.clone());
            },
            None => {},
        }
        match s.line {
            Some(x) => {
                line = Some(x);
            },
            None => {},
        }
        i = i + 1;
    }
    assert(syms@.subrange(0, syms@.len() as int) =~= syms@);
    (func, file, line)
}

fn ends_with_exec(s: &Vec<char>, e: &Vec<char>) -> (r: bool)
    ensures
        r == ends_with(s@, e@),
{
    if e.len() > s.len() {
        return false;
    }
    let sl = s.len();
    let off = s.len() - e.len();
    let mut k: usize = 0;
    while k < e.len()
        invariant
            sl == s@.len(),
            off + e@.len() == s@.len(),
            k <= e@.len(),
            forall|m: int| 0 <= m < k ==> s@[off + m] == e@[m],
        decreases e@.len() - k,
    {
        if s[off + k] != e[k] {
            assert(s@.subrange(off as int, s@.len() as int)[k as int] != e@[k as int]);
            return false;
        }
        k = k + 1;
    }
    assert(s@.subrange(off as int, s@.len() as int) =~= e@);
    true
}

fn starts_with_exec(s: &Vec<char>, e: &Vec<char>) -> (r: bool)
    ensures
        r == has_at(s@, 0, e@),
{
    if e.len() > s.len() {
        return false;
    }
    let mut k: usize = 0;
    while k < e.len()
        invariant
            e@.len() <= s@.len(),
            k <= e@.len(),
            forall|m: int| 0 <= m < k ==> s@[m] == e@[m],
        decreases e@.len() - k,
    {
        if s[k] != e[k] {
            assert(s@.subrange(0, e@.len() as int)[k as int] != e@[k as int]);
            return false;
        }
        k = k + 1;
    }
    assert(s@.subrange(0, e@.len() as int) =~= e@);
    true
}

/// One frame as resolved: function, file and line where known.
pub struct Frame {
    pub func: Option<String>,
    pub file: Option<String>,
    pub line: Option<u32>,
}

pub open spec fn frame_view(f: Frame) -> FrameView {
    FrameView { func: crate::context::opt_view(f.func), file: crate::context::opt_view(f.file), line: f.line }
}

fn resolve_all(frames: &Vec<Vec<RawSymbol>>) -> (r: Vec<Frame>)
    ensures
        r@.map_values(|f: Frame| frame_view(f)) == frames@.map_values(|f: Vec<RawSymbol>| fold_symbols(f@)),
{
    let mut r: Vec<Frame> = Vec::new();
    let mut i: usize = 0;
    while i < frames.len()
        invariant
            i <= frames@.len(),
            r@.len() == i,
            forall|j: int| 0 <= j < i ==> frame_view(#[trigger] r@[j]) == fold_symbols(frames@[j]@),
        decreases frames@.len() - i,
    {
        let (func, file, line) = fold_exec(&frames[i]);
        r.push(Frame { func, file, line });
        i = i + 1;
    }
    assert(r@.map_values(|f: Frame| frame_view(f)) =~= frames@.map_values(|f: Vec<RawSymbol>| fold_symbols(f@)));
    r
}

fn file_chars(f: &Frame) -> (r: Vec<char>)
    ensures
        r@ == or_empty(frame_view(*f).file),
{
    match &f.file {
        Some(x) => to_chars(x.as_str()),
        None => Vec::new(),
    }
}

fn find_start(fs: &Vec<Frame>, base: &Vec<char>) -> (r: usize)
    ensures
        r as int == first_own(fs@.map_values(|f: Frame| frame_view(f)), base@),
        r <= fs@.len(),
{
    let ghost v = fs@.map_values(|f: Frame| frame_view(f));
    let mut i: usize = 0;
    while i < fs.len()
        invariant
            i <= fs@.len(),
            v == fs@.map_values(|f: Frame| frame_view(f)),
            first_from(v, base@, 0) == first_from(v, base@, i as int),
        decreases fs@.len() - i,
    {
        let name = file_chars(&fs[i]);
        if ends_with_exec(&name, base) {
            return i;
        }
        i = i + 1;
    }
    i
}

/// The frames a record keeps from a captured stack, innermost first: frames
/// are skipped until the first one in the file `base` (the caller's), and
/// from there on each frame that names a function and is not in the
/// standard library's sources is kept.
pub fn select_frames(frames: &Vec<Vec<RawSymbol>>, base: &str) -> (r: Vec<Hbacktrace>)
    ensures
        ({
            let fs = frames@.map_values(|f: Vec<RawSymbol>| fold_symbols(f@));
            r@.map_values(|h: Hbacktrace| hb_view(h))
                == selected(fs, first_own(fs, base@)).map_values(|f: FrameView| frame_of(f))
        }),
{
    let all = resolve_all(frames);
    let ghost fs = all@.map_values(|f: Frame| frame_view(f));
    let b = to_chars(base);
    let start = find_start(&all, &b);
    let rustc = vec!['/', 'r', 'u', 's', 't', 'c', '/'];
    assert(rustc@ =~= rustc_prefix());
    let mut out: Vec<Hbacktrace> = Vec::new();
    let mut i: usize = start;
    assert(out@.map_values(|h: Hbacktrace| hb_view(h)) =~= selected(fs.subrange(0, start as int), start as int).map_values(|f: FrameView| frame_of(f)));
    while i < all.len()
        invariant
            start <= i <= all@.len(),
            fs == all@.map_values(|f: Frame| frame_view(f)),
            rustc@ == rustc_prefix(),
            out@.map_values(|h: Hbacktrace| hb_view(h)) == selected(fs.subrange(0, i as int), start as int).map_values(|f: FrameView| frame_of(f)),
        decreases all@.len() - i,
    {
        let fr = &all[i];
        let name = file_chars(fr);
        let keep = fr.func.is_some() && !starts_with_exec(&name, &rustc);
        proof {
            lemma_selected_extend(fs, start as int, i as int);
        }
        let ghost before = out@;
        if keep {
            let f = match &fr.func {
                Some(x) => x.clone(),
                None => String::new(),
            };
            out.push(Hbacktrace { funcName: f, fileName: fr.file.clone(), line: fr.line });
            proof {
                assert(keeps(fs[i as int]));
                assert(out@.map_values(|h: Hbacktrace| hb_view(h)) =~= before.map_values(|h: Hbacktrace| hb_view(h)).push(frame_of(fs[i as int])));
                assert(selected(fs.subrange(0, i + 1), start as int).map_values(|f: FrameView| frame_of(f))
                    =~= selected(fs.subrange(0, i as int), start as int).map_values(|f: FrameView| frame_of(f)).push(frame_of(fs[i as int])));
            }
        } else {
            proof {
                assert(!keeps(fs[i as int]));
                assert(selected(fs.subrange(0, i + 1), start as int) =~= selected(fs.subrange(0, i as int), start as int));
            }
        }
        i = i + 1;
    }
    assert(fs.subrange(0, all@.len() as int) =~= fs);
    out
}

proof fn lemma_selected_extend(fs: Seq<FrameView>, start: int, i: int)
    requires
        0 <= start <= i < fs.len(),
    ensures
        selected(fs.subrange(0, i + 1), start) == selected(fs.subrange(0, i), start) + (if keeps(fs[i]) { seq![fs[i]] } else { Seq::empty() }),
    decreases i - start,
{
    let a = fs.subrange(0, i + 1);
    let b = fs.subrange(0, i);
    if start == i {
        assert(selected(b, start) == Seq::<FrameView>::empty());
        assert(selected(a, start + 1) == Seq::<FrameView>::empty());
        assert(a[start] == fs[i]);
        if keeps(fs[i]) {
            assert(selected(a, start) =~= seq![fs[i]]);
        }
    } else {
        lemma_selected_extend(fs, start + 1, i);
        assert(a[start] == fs[start]);
        assert(b[start] == fs[start]);
        if keeps(fs[start]) {
            assert(selected(a, start) =~= seq![fs[start]] + selected(a, start + 1));
        }
    }
}

} // verus!
