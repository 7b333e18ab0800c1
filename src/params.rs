//! Named parameters in command templates: finding them and substituting
//! values for them.
use vstd::prelude::*;
use vstd::string::*;
use crate::entry::texts;
use crate::text::{from_chars, is_space, push_char, space, to_chars};

verus! {

/// One occurrence of a named parameter in a template: its name and the span
/// `[start, end)` that it takes, delimiters included. The span counts
/// characters, not bytes: `start` is the index of the start delimiter among
/// the template's characters. A caller that slices the template by bytes
/// converts it, e.g. with `char_indices`.
#[derive(Debug, Clone, PartialEq, Eq)]
pub struct ParameterToken {
    pub name: String,
    pub start: usize,
    pub end: usize,
}

/// An occurrence as plain values: name, start, end.
pub type TokenView = (Seq<char>, int, int);

impl View for ParameterToken {
    type V = TokenView;

    open spec fn view(&self) -> TokenView {
        (self.name@, self.start as int, self.end as int)
    }
}

/// The views of a list of tokens.
pub open spec fn token_views(s: Seq<ParameterToken>) -> Seq<TokenView> {
    s.map_values(|t: ParameterToken| t@)
}

/// `c` is the configured end delimiter.
pub open spec fn is_end(c: char, end: Option<char>) -> bool {
    end == Some(c)
}

/// The first index from `k` on that holds white space or the end delimiter,
/// or the length of `t` if there is none.
pub open spec fn run_end(t: Seq<char>, end: Option<char>, k: int) -> int
    decreases t.len() - k,
{
    if k < 0 || k >= t.len() || is_space(t[k]) || is_end(t[k], end) {
        k
    } else {
        run_end(t, end, k + 1)
    }
}

/// Where the parameter run that starts with a start delimiter at `i` stops:
/// just after the end delimiter if that is what ended the name, else where
/// the name ends.
pub open spec fn run_stop(t: Seq<char>, end: Option<char>, i: int) -> int {
    let j = run_end(t, end, i + 1);
    if j < t.len() && is_end(t[j], end) {
        j + 1
    } else {
        j
    }
}

/// A parameter begins at `i`: a start delimiter followed by a non-empty name.
pub open spec fn param_at(t: Seq<char>, start: char, end: Option<char>, i: int) -> bool {
    0 <= i < t.len() && t[i] == start && run_end(t, end, i + 1) > i + 1
}

/// The name of the parameter that begins at `i`.
pub open spec fn name_at(t: Seq<char>, end: Option<char>, i: int) -> Seq<char> {
    t.subrange(i + 1, run_end(t, end, i + 1))
}

/// The parameter occurrences of `t` from index `i` on, left to right. A start
/// delimiter with an empty name is plain text.
pub open spec fn scan(t: Seq<char>, start: char, end: Option<char>, i: int) -> Seq<TokenView>
    decreases t.len() - i
    via scan_decreases
{
    if i < 0 || i >= t.len() {
        Seq::empty()
    } else if param_at(t, start, end, i) {
        let stop = run_stop(t, end, i);
        seq![(name_at(t, end, i), i, stop)] + scan(t, start, end, stop)
    } else {
        scan(t, start, end, i + 1)
    }
}

/// The value given for `name`: the first one paired with it.
pub open spec fn lookup(names: Seq<Seq<char>>, values: Seq<Seq<char>>, name: Seq<char>) -> Option<
    Seq<char>,
>
    decreases names.len(),
{
    if names.len() == 0 || values.len() == 0 {
        None
    } else if names[0] == name {
        Some(values[0])
    } else {
        lookup(names.drop_first(), values.drop_first(), name)
    }
}

/// `t` from index `i` on with every parameter occurrence replaced by the
/// value given for its name; an occurrence whose name has no value stays as
/// it is.
pub open spec fn subst(
    t: Seq<char>,
    start: char,
    end: Option<char>,
    names: Seq<Seq<char>>,
    values: Seq<Seq<char>>,
    i: int,
) -> Seq<char>
    decreases t.len() - i
    via subst_decreases
{
    if i < 0 || i >= t.len() {
        Seq::empty()
    } else if param_at(t, start, end, i) {
        let stop = run_stop(t, end, i);
        let piece = match lookup(names, values, name_at(t, end, i)) {
            Some(v) => v,
            None => t.subrange(i, stop),
        };
        piece + subst(t, start, end, names, values, stop)
    } else {
        seq![t[i]] + subst(t, start, end, names, values, i + 1)
    }
}

/// The names in `ns` without repeats, in order of first occurrence.
pub open spec fn distinct(ns: Seq<Seq<char>>) -> Seq<Seq<char>>
    decreases ns.len(),
{
    if ns.len() == 0 {
        Seq::empty()
    } else {
        let d = distinct(ns.drop_last());
        if d.contains(ns.last()) {
            d
        } else {
            d.push(ns.last())
        }
    }
}

/// The names of a list of occurrences.
pub open spec fn names_of(ts: Seq<TokenView>) -> Seq<Seq<char>> {
    ts.map_values(|t: TokenView| t.0)
}

proof fn lemma_run_end_bounds(t: Seq<char>, end: Option<char>, k: int)
    requires
        0 <= k <= t.len(),
    ensures
        k <= run_end(t, end, k) <= t.len(),
    decreases t.len() - k,
{
    if k < t.len() && !is_space(t[k]) && !is_end(t[k], end) {
        lemma_run_end_bounds(t, end, k + 1);
    }
}

proof fn lemma_stop_after(t: Seq<char>, end: Option<char>, i: int)
    requires
        0 <= i < t.len(),
    ensures
        i + 1 <= run_end(t, end, i + 1) <= run_stop(t, end, i) <= t.len(),
{
    lemma_run_end_bounds(t, end, i + 1);
}

#[via_fn]
proof fn scan_decreases(t: Seq<char>, start: char, end: Option<char>, i: int) {
    if 0 <= i < t.len() {
        lemma_stop_after(t, end, i);
    }
}

#[via_fn]
proof fn subst_decreases(
    t: Seq<char>,
    start: char,
    end: Option<char>,
    names: Seq<Seq<char>>,
    values: Seq<Seq<char>>,
    i: int,
) {
    if 0 <= i < t.len() {
        lemma_stop_after(t, end, i);
    }
}

/// The first index from `k` on that holds white space or the end delimiter.
fn run_end_exec(t: &Vec<char>, end: Option<char>, k: usize) -> (r: usize)
    requires
        k <= t@.len(),
    ensures
        r == run_end(t@, end, k as int),
        k <= r <= t@.len(),
{
    let mut j: usize = k;
    while j < t.len() && !space(t[j]) && !(end == Some(t[j]))
        invariant
            k <= j <= t@.len(),
            run_end(t@, end, k as int) == run_end(t@, end, j as int),
        decreases t@.len() - j,
    {
        j = j + 1;
    }
    proof {
        lemma_run_end_bounds(t@, end, k as int);
    }
    j
}

/// Whether a parameter begins at `i`, and where its name ends and its run
/// stops.
fn param_exec(t: &Vec<char>, start: char, end: Option<char>, i: usize) -> (r: (bool, usize, usize))
    requires
        i < t@.len(),
    ensures
        r.0 == param_at(t@, start, end, i as int),
        r.0 ==> r.1 == run_end(t@, end, i + 1) && r.2 == run_stop(t@, end, i as int),
        r.0 ==> i + 1 < r.1 <= r.2 <= t@.len(),
{
    if t[i] != start {
        return (false, 0, 0);
    }
    proof {
        lemma_stop_after(t@, end, i as int);
    }
    let n = t.len();
    assert(i + 1 <= n);
    let j = run_end_exec(t, end, i + 1);
    if j == i + 1 {
        return (false, 0, 0);
    }
    let stop = if j < t.len() && end == Some(t[j]) {
        j + 1
    } else {
        j
    };
    (true, j, stop)
}

/// The parameter occurrences of `template`, left to right, for the start
/// delimiter `start` and the optional end delimiter `end`. A name runs from
/// after the start delimiter to the first white space, end delimiter or the
/// end of the text; an end delimiter that stops a name belongs to its
/// occurrence. A start delimiter followed by no name is plain text.
pub fn parse(template: &str, start: char, end: Option<char>) -> (r: Vec<ParameterToken>)
    ensures
        token_views(r@) == scan(template@, start, end, 0),
{
    let t = to_chars(template);
    let mut r: Vec<ParameterToken> = Vec::new();
    let mut i: usize = 0;
    assert(token_views(r@) =~= Seq::<TokenView>::empty());
    while i < t.len()
        invariant
            i <= t@.len(),
            t@ == template@,
            scan(t@, start, end, 0) == token_views(r@) + scan(t@, start, end, i as int),
        decreases t@.len() - i,
    {
        let (is_param, j, stop) = param_exec(&t, start, end, i);
        if is_param {
            let name = from_chars(&t.as_slice()[i + 1..j]);
            let ghost before = token_views(r@);
            let tok = ParameterToken { name, start: i, end: stop };
            assert(name@ =~= name_at(t@, end, i as int));
            r.push(tok);
            assert(token_views(r@) =~= before.push(tok@));
            assert(token_views(r@) + scan(t@, start, end, stop as int) =~= before + scan(t@, start, end, i as int));
            i = stop;
        } else {
            i = i + 1;
        }
    }
    assert(token_views(r@) + scan(t@, start, end, i as int) =~= token_views(r@));
    r
}

/// The index of the value given for `name`: the first pair whose name is
/// `name`, if any.
fn lookup_exec(names: &Vec<String>, values: &Vec<String>, name: &String) -> (r: Option<usize>)
    ensures
        match r {
            Some(k) => k < names@.len() && k < values@.len() && lookup(
                texts(names@),
                texts(values@),
                name@,
            ) == Some(values@[k as int]@),
            None => lookup(texts(names@), texts(values@), name@) is None,
        },
{
    let ghost ns = texts(names@);
    let ghost vs = texts(values@);
    let mut k: usize = 0;
    assert(ns.subrange(0, ns.len() as int) =~= ns);
    assert(vs.subrange(0, vs.len() as int) =~= vs);
    while k < names.len() && k < values.len()
        invariant
            ns == texts(names@),
            vs == texts(values@),
            k <= names@.len(),
            k <= values@.len(),
            lookup(ns, vs, name@) == lookup(
                ns.subrange(k as int, ns.len() as int),
                vs.subrange(k as int, vs.len() as int),
                name@,
            ),
        decreases names@.len() - k,
    {
        let ghost a = ns.subrange(k as int, ns.len() as int);
        let ghost b = vs.subrange(k as int, vs.len() as int);
        assert(a[0] == names@[k as int]@);
        if names[k] == *name {
            assert(b[0] == values@[k as int]@);
            return Some(k);
        }
        assert(ns.subrange(k + 1, ns.len() as int) =~= a.drop_first());
        assert(vs.subrange(k + 1, vs.len() as int) =~= b.drop_first());
        k = k + 1;
    }
    None
}

/// `template` with every parameter occurrence replaced by the value paired
/// with its name (`values[k]` for the first `k` with `names[k]` equal to it).
/// All occurrences of one name get the same value; an occurrence whose name
/// has no value stays as written.
pub fn resolve(
    template: &str,
    start: char,
    end: Option<char>,
    names: &Vec<String>,
    values: &Vec<String>,
) -> (r: String)
    ensures
        r@ == subst(template@, start, end, texts(names@), texts(values@), 0),
{
    let ghost ns = texts(names@);
    let ghost vs = texts(values@);
    let t = to_chars(template);
    let mut r = String::new();
    let mut i: usize = 0;
    assert(r@ + subst(t@, start, end, ns, vs, 0) =~= subst(t@, start, end, ns, vs, 0));
    while i < t.len()
        invariant
            i <= t@.len(),
            t@ == template@,
            ns == texts(names@),
            vs == texts(values@),
            subst(t@, start, end, ns, vs, 0) == r@ + subst(t@, start, end, ns, vs, i as int),
        decreases t@.len() - i,
    {
        let (is_param, j, stop) = param_exec(&t, start, end, i);
        let ghost before = r@;
        if is_param {
            let name = from_chars(&t.as_slice()[i + 1..j]);
            assert(name@ =~= name_at(t@, end, i as int));
            match lookup_exec(names, values, &name) {
                Some(k) => {
                    r.append(values[k].as_str());
                },
                None => {
                    let lit = from_chars(&t.as_slice()[i..stop]);
                    assert(lit@ =~= t@.subrange(i as int, stop as int));
                    r.append(lit.as_str());
                },
            }
            assert(before + subst(t@, start, end, ns, vs, i as int) =~= r@ + subst(
                t@,
                start,
                end,
                ns,
                vs,
                stop as int,
            ));
            i = stop;
        } else {
            push_char(&mut r, t[i]);
            assert(before + subst(t@, start, end, ns, vs, i as int) =~= r@ + subst(
                t@,
                start,
                end,
                ns,
                vs,
                i + 1,
            ));
            i = i + 1;
        }
    }
    assert(r@ + subst(t@, start, end, ns, vs, i as int) =~= r@);
    r
}

/// The names of `tokens` without repeats, in order of first occurrence: the
/// values to ask for, one per name.
pub fn distinct_names(tokens: &Vec<ParameterToken>) -> (r: Vec<String>)
    ensures
        texts(r@) == distinct(names_of(token_views(tokens@))),
{
    let ghost all = names_of(token_views(tokens@));
    let mut r: Vec<String> = Vec::new();
    let mut i: usize = 0;
    assert(texts(r@) =~= distinct(all.subrange(0, 0)));
    while i < tokens.len()
        invariant
            i <= tokens@.len(),
            all == names_of(token_views(tokens@)),
            texts(r@) == distinct(all.subrange(0, i as int)),
        decreases tokens@.len() - i,
    {
        let ghost pre = all.subrange(0, i as int);
        assert(all.subrange(0, i + 1).drop_last() =~= pre);
        assert(all.subrange(0, i + 1).last() == tokens@[i as int].name@);
        if !crate::entry::holds_text(&r, &tokens[i].name) {
            let ghost before = r@;
            r.push(tokens[i].name.clone());
            assert(texts(r@) =~= texts(before).push(tokens@[i as int].name@));
        }
        i = i + 1;
    }
    assert(all.subrange(0, tokens@.len() as int) =~= all);
    r
}

/// An interactive resolution of one template: the distinct parameter names
/// are asked for one at a time, in order of first occurrence, and the
/// template is resolved once every name has a value. Dropping it cancels the
/// resolution.
#[derive(Debug, Clone, PartialEq, Eq)]
pub struct Resolution {
    pub template: String,
    pub start: char,
    pub end: Option<char>,
    /// The distinct parameter names of the template.
    pub names: Vec<String>,
    /// The values given so far, one for each of the first names.
    pub values: Vec<String>,
}

impl Resolution {
    /// The names are those of the template, and no more values than names
    /// have been given.
    pub open spec fn wf(&self) -> bool {
        &&& texts(self.names@) == distinct(names_of(scan(self.template@, self.start, self.end, 0)))
        &&& self.values@.len() <= self.names@.len()
    }

    /// Begins resolving `template` with the given delimiters.
    pub fn new(template: String, start: char, end: Option<char>) -> (r: Resolution)
        ensures
            r.wf(),
            r.template@ == template@,
            r.start == start,
            r.end == end,
            r.values@.len() == 0,
    {
        let tokens = parse(template.as_str(), start, end);
        let names = distinct_names(&tokens);
        Resolution { template, start, end, names, values: Vec::new() }
    }

    /// The name whose value is asked for next, or nothing when every name
    /// has one.
    pub fn pending_name(&self) -> (r: Option<String>)
        requires
            self.wf(),
        ensures
            match r {
                Some(n) => self.values@.len() < self.names@.len() && n@ == self.names@[self.values@.len() as int]@,
                None => self.values@.len() == self.names@.len(),
            },
    {
        if self.values.len() < self.names.len() {
            Some(self.names[self.values.len()].clone())
        } else {
            None
        }
    }

    /// Gives the pending name its value.
    pub fn supply(&mut self, value: String)
        requires
            old(self).wf(),
            old(self).values@.len() < old(self).names@.len(),
        ensures
            final(self).wf(),
            final(self).values@ == old(self).values@.push(value),
            final(self).names == old(self).names,
            final(self).template == old(self).template,
            final(self).start == old(self).start,
            final(self).end == old(self).end,
    {
        self.values.push(value);
    }

    /// The resolved command once every name has a value: each occurrence of
    /// a name replaced by its value.
    pub fn finish(&self) -> (r: Option<String>)
        requires
            self.wf(),
        ensures
            match r {
                Some(s) => self.values@.len() == self.names@.len() && s@ == subst(
                    self.template@,
                    self.start,
                    self.end,
                    texts(self.names@),
                    texts(self.values@),
                    0,
                ),
                None => self.values@.len() < self.names@.len(),
            },
    {
        if self.values.len() == self.names.len() {
            Some(resolve(self.template.as_str(), self.start, self.end, &self.names, &self.values))
        } else {
            None
        }
    }
}

} // verus!
