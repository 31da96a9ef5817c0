//! Templates: compiled once into a plan of literal text and placeholders,
//! then rendered against named parameters.
//!
//! A placeholder is `{name}`, `{name:<affix}` or `{name:>affix}`, where name is
//! one of time, lvl, file, line, msg, thread, context, or `extra[key]`. The
//! `<` affix goes before the value, the `>` affix after it. Anything else is
//! literal text.
use vstd::prelude::*;
use crate::keyed::KeyedMap;
use crate::text::{string_of, to_chars};

verus! {

/// A recognized placeholder: the parameter it reads and the affixes around it.
pub struct TokenView {
    pub prefix: Seq<char>,
    pub data: Seq<char>,
    pub suffix: Seq<char>,
}

/// A compiled template: literal text, each followed by an optional placeholder.
pub type PlanView = Seq<(Seq<char>, Option<TokenView>)>;

/// `w` stands in `t` at position `i`.
pub open spec fn has_at(t: Seq<char>, i: int, w: Seq<char>) -> bool {
    0 <= i && i + w.len() <= t.len() && t.subrange(i, i + w.len()) == w
}

/// The first position from `from` on that holds `c`.
pub open spec fn find_char(t: Seq<char>, from: int, c: char) -> Option<int>
    decreases t.len() - from,
{
    if from < 0 || from >= t.len() {
        None
    } else if t[from] == c {
        Some(from)
    } else {
        find_char(t, from + 1, c)
    }
}

pub open spec fn w_time() -> Seq<char> { seq!['t', 'i', 'm', 'e'] }
pub open spec fn w_lvl() -> Seq<char> { seq!['l', 'v', 'l'] }
pub open spec fn w_file() -> Seq<char> { seq!['f', 'i', 'l', 'e'] }
pub open spec fn w_line() -> Seq<char> { seq!['l', 'i', 'n', 'e'] }
pub open spec fn w_msg() -> Seq<char> { seq!['m', 's', 'g'] }
pub open spec fn w_thread() -> Seq<char> { seq!['t', 'h', 'r', 'e', 'a', 'd'] }
pub open spec fn w_context() -> Seq<char> { seq!['c', 'o', 'n', 't', 'e', 'x', 't'] }
pub open spec fn w_extra_open() -> Seq<char> { seq!['e', 'x', 't', 'r', 'a', '['] }
pub open spec fn w_extra_key() -> Seq<char> { seq!['e', 'x', 't', 'r', 'a', ':'] }

/// The parameter named at `j`, and the position after the name.
pub open spec fn name_at(t: Seq<char>, j: int) -> Option<(Seq<char>, int)> {
    if has_at(t, j, w_time()) {
        Some((w_time(), j + 4))
    } else if has_at(t, j, w_lvl()) {
        Some((w_lvl(), j + 3))
    } else if has_at(t, j, w_file()) {
        Some((w_file(), j + 4))
    } else if has_at(t, j, w_line()) {
        Some((w_line(), j + 4))
    } else if has_at(t, j, w_msg()) {
        Some((w_msg(), j + 3))
    } else if has_at(t, j, w_thread()) {
        Some((w_thread(), j + 6))
    } else if has_at(t, j, w_context()) {
        Some((w_context(), j + 7))
    } else if has_at(t, j, w_extra_open()) {
        match find_char(t, j + 6, ']') {
            Some(m) => if m > j + 6 {
                Some((w_extra_key() + t.subrange(j + 6, m), m + 1))
            } else {
                None
            },
            None => None,
        }
    } else {
        None
    }
}

/// What closes a placeholder at `a`: `}` alone, or `:<affix}` / `:>affix}`
/// with a non-empty affix. Gives prefix, suffix and the position after `}`.
pub open spec fn tail_at(t: Seq<char>, a: int) -> Option<(Seq<char>, Seq<char>, int)> {
    if 0 <= a < t.len() && t[a] == '}' {
        Some((Seq::empty(), Seq::empty(), a + 1))
    } else if 0 <= a && a + 1 < t.len() && t[a] == ':' && (t[a + 1] == '<' || t[a + 1] == '>') {
        match find_char(t, a + 2, '}') {
            Some(e) => if e > a + 2 {
                if t[a + 1] == '<' {
                    Some((t.subrange(a + 2, e), Seq::empty(), e + 1))
                } else {
                    Some((Seq::empty(), t.subrange(a + 2, e), e + 1))
                }
            } else {
                None
            },
            None => None,
        }
    } else {
        None
    }
}

/// The placeholder that starts at `i`, and the position after it.
pub open spec fn token_at(t: Seq<char>, i: int) -> Option<(TokenView, int)> {
    if 0 <= i < t.len() && t[i] == '{' {
        match name_at(t, i + 1) {
            Some((d, a)) => match tail_at(t, a) {
                Some((p, s, e)) => Some((TokenView { prefix: p, data: d, suffix: s }, e)),
                None => None,
            },
            None => None,
        }
    } else {
        None
    }
}

/// The plan of `t` from position `i` on, the pending literal starting at `lit`.
pub open spec fn plan_from(t: Seq<char>, i: int, lit: int) -> PlanView
    decreases t.len() - i,
{
    if i >= t.len() {
        seq![(t.subrange(lit, t.len() as int), None)]
    } else {
        match token_at(t, i) {
            Some((tok, e)) => if i < e <= t.len() {
                seq![(t.subrange(lit, i), Some(tok))] + plan_from(t, e, e)
            } else {
                plan_from(t, i + 1, lit)
            },
            None => plan_from(t, i + 1, lit),
        }
    }
}

/// The plan of a template: placeholders taken left to right, never
/// overlapping, text that is no placeholder kept as it is.
pub open spec fn plan_of(t: Seq<char>) -> PlanView {
    plan_from(t, 0, 0)
}

/// The value of a parameter; a missing one is empty.
pub open spec fn lookup(params: Map<Seq<char>, Seq<char>>, k: Seq<char>) -> Seq<char> {
    if params.contains_key(k) { params[k] } else { Seq::empty() }
}

/// A plan rendered against parameters.
pub open spec fn render_spec(plan: PlanView, params: Map<Seq<char>, Seq<char>>) -> Seq<char>
    decreases plan.len(),
{
    if plan.len() == 0 {
        Seq::empty()
    } else {
        let (lit, tok) = plan.last();
        render_spec(plan.drop_last(), params) + lit + match tok {
            Some(d) => d.prefix + lookup(params, d.data) + d.suffix,
            None => Seq::empty(),
        }
    }
}

/// A placeholder: the parameter it reads and the affixes around it.
pub struct FormaterData {
    pub prefix: String,
    pub data: String,
    pub suffix: String,
}

impl View for FormaterData {
    type V = TokenView;

    open spec fn view(&self) -> TokenView {
        TokenView { prefix: self.prefix@, data: self.data@, suffix: self.suffix@ }
    }
}

pub open spec fn opt_token(o: Option<FormaterData>) -> Option<TokenView> {
    match o {
        Some(d) => Some(d@),
        None => None,
    }
}

/// A compiled template.
pub struct FormaterCompiled {
    pub inner: Vec<(String, Option<FormaterData>)>,
}

impl View for FormaterCompiled {
    type V = PlanView;

    open spec fn view(&self) -> PlanView {
        self.inner@.map_values(|e: (String, Option<FormaterData>)| (e.0@, opt_token(e.1)))
    }
}

pub(crate) fn has_word(t: &Vec<char>, j: usize, w: &Vec<char>) -> (r: bool)
    ensures
        r == has_at(t@, j as int, w@),
{
    if j > t.len() || w.len() > t.len() - j {
        return false;
    }
    let tl = t.len();
    let mut k: usize = 0;
    while k < w.len()
        invariant
            tl == t@.len(),
            j + w@.len() <= t@.len(),
            k <= w@.len(),
            forall|m: int| 0 <= m < k ==> t@[j + m] == w@[m],
        decreases w@.len() - k,
    {
        if t[j + k] != w[k] {
            assert(t@.subrange(j as int, j + w@.len())[k as int] != w@[k as int]);
            return false;
        }
        k = k + 1;
    }
    assert(t@.subrange(j as int, j + w@.len()) =~= w@);
    true
}

fn find_char_exec(t: &Vec<char>, from: usize, c: char) -> (r: Option<usize>)
    ensures
        r matches Some(k) ==> find_char(t@, from as int, c) == Some(k as int) && from <= k < t@.len(),
        r is None ==> find_char(t@, from as int, c) is None,
{
    let mut k: usize = from;
    while k < t.len()
        invariant
            from <= k,
            find_char(t@, from as int, c) == find_char(t@, k as int, c),
        decreases t@.len() - k,
    {
        if t[k] == c {
            return Some(k);
        }
        k = k + 1;
    }
    None
}

fn sub_string(t: &Vec<char>, a: usize, b: usize) -> (r: String)
    requires
        a <= b <= t@.len(),
    ensures
        r@ == t@.subrange(a as int, b as int),
{
    let mut v: Vec<char> = Vec::new();
    let mut k: usize = a;
    while k < b
        invariant
            a <= k <= b <= t@.len(),
            v@ == t@.subrange(a as int, k as int),
        decreases b - k,
    {
        v.push(t[k]);
        k = k + 1;
        assert(v@ =~= t@.subrange(a as int, k as int));
    }
    string_of(&v)
}

fn name_exec(t: &Vec<char>, j: usize) -> (r: Option<(String, usize)>)
    ensures
        r matches Some((s, a2)) ==> name_at(t@, j as int) == Some((s@, a2 as int)) && a2 <= t@.len(),
        r is None ==> name_at(t@, j as int) is None,
{
    let tl = t.len();
    let time = vec!['t', 'i', 'm', 'e'];
    let lvl = vec!['l', 'v', 'l'];
    let file = vec!['f', 'i', 'l', 'e'];
    let line = vec!['l', 'i', 'n', 'e'];
    let msg = vec!['m', 's', 'g'];
    let thread = vec!['t', 'h', 'r', 'e', 'a', 'd'];
    let context = vec!['c', 'o', 'n', 't', 'e', 'x', 't'];
    let extra = vec!['e', 'x', 't', 'r', 'a', '['];
    assert(time@ =~= w_time());
    assert(lvl@ =~= w_lvl());
    assert(file@ =~= w_file());
    assert(line@ =~= w_line());
    assert(msg@ =~= w_msg());
    assert(thread@ =~= w_thread());
    assert(context@ =~= w_context());
    assert(extra@ =~= w_extra_open());
    if has_word(t, j, &time) {
        Some((string_of(&time), j + 4))
    } else if has_word(t, j, &lvl) {
        Some((string_of(&lvl), j + 3))
    } else if has_word(t, j, &file) {
        Some((string_of(&file), j + 4))
    } else if has_word(t, j, &line) {
        Some((string_of(&line), j + 4))
    } else if has_word(t, j, &msg) {
        Some((string_of(&msg), j + 3))
    } else if has_word(t, j, &thread) {
        Some((string_of(&thread), j + 6))
    } else if has_word(t, j, &context) {
        Some((string_of(&context), j + 7))
    } else if has_word(t, j, &extra) {
        match find_char_exec(t, j + 6, ']') {
            Some(m) => {
                if m > j + 6 {
                    let mut key = vec!['e', 'x', 't', 'r', 'a', ':'];
                    let mut k: usize = j + 6;
                    while k < m
                        invariant
                            j + 6 <= k <= m < t@.len(),
                            key@ == w_extra_key() + t@.subrange(j + 6, k as int),
                        decreases m - k,
                    {
                        key.push(t[k]);
                        k = k + 1;
                        assert(key@ =~= w_extra_key() + t@.subrange(j + 6, k as int));
                    }
                    Some((string_of(&key), m + 1))
                } else {
                    None
                }
            },
            None => None,
        }
    } else {
        None
    }
}

fn tail_exec(t: &Vec<char>, a: usize) -> (r: Option<(String, String, usize)>)
    ensures
        r matches Some((pre, suf, end)) ==> tail_at(t@, a as int) == Some((pre@, suf@, end as int)) && a < end <= t@.len(),
        r is None ==> tail_at(t@, a as int) is None,
{
    let tl = t.len();
    if a < t.len() && t[a] == '}' {
        return Some((String::new(), String::new(), a + 1));
    }
    if a < t.len() && a + 1 < t.len() && t[a] == ':' && (t[a + 1] == '<' || t[a + 1] == '>') {
        match find_char_exec(t, a + 2, '}') {
            Some(e) => {
                if e > a + 2 {
                    let affix = sub_string(t, a + 2, e);
                    if t[a + 1] == '<' {
                        Some((affix, String::new(), e + 1))
                    } else {
                        Some((String::new(), affix, e + 1))
                    }
                } else {
                    None
                }
            },
            None => None,
        }
    } else {
        None
    }
}

fn token_exec(t: &Vec<char>, i: usize) -> (r: Option<(FormaterData, usize)>)
    requires
        i < t@.len(),
    ensures
        match token_at(t@, i as int) {
            Some((tok, e)) => r matches Some((d, e2)) && d@ == tok && e2 == e && i < e <= t@.len(),
            None => r is None,
        },
{
    let tl = t.len();
    if t[i] != '{' {
        return None;
    }
    match name_exec(t, i + 1) {
        Some((data, a)) => match tail_exec(t, a) {
            Some((prefix, suffix, e)) => {
                let d = FormaterData { prefix, data, suffix };
                assert(token_at(t@, i as int) == Some((d@, e as int)));
                Some((d, e))
            },
            None => None,
        },
        None => None,
    }
}

/// Compiles a template into its plan. Never fails: text that is no
/// placeholder stays literal.
pub fn FormaterCompile(formater: &String) -> (r: FormaterCompiled)
    ensures
        r@ == plan_of(formater@),
{
    let t = to_chars(formater.as_str());
    let n = t.len();
    let mut out: Vec<(String, Option<FormaterData>)> = Vec::new();
    let mut i: usize = 0;
    let mut lit: usize = 0;
    while i < n
        invariant
            n == t@.len(),
            lit <= i <= n,
            plan_of(t@) == (FormaterCompiled { inner: out })@ + plan_from(t@, i as int, lit as int),
        decreases n - i,
    {
        match token_exec(&t, i) {
            Some((tok, e)) => {
                let ghost before = (FormaterCompiled { inner: out })@;
                let ghost tv = tok@;
                let seg = sub_string(&t, lit, i);
                out.push((seg, Some(tok)));
                proof {
                    assert((FormaterCompiled { inner: out })@ =~= before.push((t@.subrange(lit as int, i as int), Some(tv))));
                    assert(plan_from(t@, i as int, lit as int) == seq![(t@.subrange(lit as int, i as int), Some(tv))] + plan_from(t@, e as int, e as int));
                    assert(before + plan_from(t@, i as int, lit as int) =~= before.push((t@.subrange(lit as int, i as int), Some(tv))) + plan_from(t@, e as int, e as int));
                }
                i = e;
                lit = e;
            },
            None => {
                i = i + 1;
            },
        }
    }
    let ghost before = (FormaterCompiled { inner: out })@;
    let seg = sub_string(&t, lit, n);
    out.push((seg, None));
    let r = FormaterCompiled { inner: out };
    assert(r@ =~= before + plan_from(t@, i as int, lit as int));
    r
}

impl FormaterCompiled {
    /// Renders the plan: each literal, then, for a placeholder, its prefix,
    /// the parameter's value (empty when missing) and its suffix.
    pub fn render(&self, parameters: KeyedMap<String>) -> (r: String)
        requires
            parameters.wf(),
        ensures
            r@ == render_spec(self@, parameters@.map_values(|s: String| s@)),
    {
        let ghost params = parameters@.map_values(|s: String| s@);
        let mut out: Vec<char> = Vec::new();
        let mut i: usize = 0;
        while i < self.inner.len()
            invariant
                parameters.wf(),
                params == parameters@.map_values(|s: String| s@),
                i <= self.inner@.len(),
                out@ == render_spec(self@.subrange(0, i as int), params),
            decreases self.inner@.len() - i,
        {
            let (lit, tok) = &self.inner[i];
            crate::text::push_str(&mut out, lit.as_str());
            match tok {
                Some(d) => {
                    crate::text::push_str(&mut out, d.prefix.as_str());
                    match parameters.get(&d.data) {
                        Some(v) => crate::text::push_str(&mut out, v.as_str()),
                        None => {},
                    }
                    crate::text::push_str(&mut out, d.suffix.as_str());
                },
                None => {},
            }
            proof {
                assert(self@.subrange(0, i + 1).drop_last() =~= self@.subrange(0, i as int));
            }
            i = i + 1;
            assert(out@ =~= render_spec(self@.subrange(0, i as int), params));
        }
        assert(self@.subrange(0, self.inner@.len() as int) =~= self@);
        string_of(&out)
    }
}

} // verus!
