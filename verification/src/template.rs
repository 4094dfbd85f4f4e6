//! Template expansion for [`TemplatedString`].
//!
//! A templated string may contain `$NAME` and `${NAME}` variable
//! references and may start with `~`, which expands to the caller's home
//! directory.  Resolution never fails: a missing variable expands to the
//! empty string, a `$` that introduces no reference stays literal, and an
//! unclosed `${` stays literal.  The whole grammar is pinned down by
//! [`expand_spec`], and [`TemplatedString::resolve`] is proved to compute
//! exactly that function.

use vstd::prelude::*;

use crate::config::TemplatedString;
use crate::strutil::{find_char_from, str_eq};

verus! {

/// Characters allowed in a bare `$NAME` reference.
pub open spec fn is_name_char(c: char) -> bool {
    c == '_' || ('a' <= c && c <= 'z') || ('A' <= c && c <= 'Z') || ('0' <= c && c <= '9')
}

/// Length of the maximal prefix of `s` made of name characters.
pub open spec fn name_len(s: Seq<char>) -> nat
    decreases s.len(),
{
    if s.len() > 0 && is_name_char(s[0]) {
        (1 + name_len(s.subrange(1, s.len() as int))) as nat
    } else {
        0
    }
}

/// Position of the first `c` in `s`, or `s.len()` when `c` is absent.
pub open spec fn find_pos(s: Seq<char>, c: char) -> nat
    decreases s.len(),
{
    if s.len() == 0 {
        0
    } else if s[0] == c {
        0
    } else {
        (1 + find_pos(s.subrange(1, s.len() as int), c)) as nat
    }
}

/// First value bound to `name`: earlier pairs shadow later ones.
pub open spec fn table_lookup(
    pairs: Seq<(Seq<char>, Seq<char>)>,
    name: Seq<char>,
) -> Option<Seq<char>>
    decreases pairs.len(),
{
    if pairs.len() == 0 {
        None
    } else if pairs[0].0 == name {
        Some(pairs[0].1)
    } else {
        table_lookup(pairs.subrange(1, pairs.len() as int), name)
    }
}

/// A missing variable expands to the empty string.
pub open spec fn lookup_or_empty(
    pairs: Seq<(Seq<char>, Seq<char>)>,
    name: Seq<char>,
) -> Seq<char> {
    match table_lookup(pairs, name) {
        Some(v) => v,
        None => Seq::empty(),
    }
}

/// Variable expansion: substitute every `$NAME` and `${NAME}` reference
/// in `s` by its value in `vars`, in one left-to-right pass.  Substituted
/// values are not rescanned.
pub open spec fn expand_vars(s: Seq<char>, vars: Seq<(Seq<char>, Seq<char>)>) -> Seq<char>
    decreases s.len(),
{
    let n = s.len() as int;
    if s.len() == 0 {
        s
    } else if s[0] == '$' {
        if s.len() >= 2 && s[1] == '{' {
            let j = find_pos(s.subrange(2, n), '}') as int;
            if j < n - 2 {
                lookup_or_empty(vars, s.subrange(2, 2 + j)) + expand_vars(
                    s.subrange(3 + j, n),
                    vars,
                )
            } else {
                seq!['$', '{'] + expand_vars(s.subrange(2, n), vars)
            }
        } else if s.len() >= 2 && is_name_char(s[1]) {
            let m0 = name_len(s.subrange(1, n)) as int;
            let m = if m0 <= n - 1 {
                m0
            } else {
                n - 1
            };
            lookup_or_empty(vars, s.subrange(1, 1 + m)) + expand_vars(s.subrange(1 + m, n), vars)
        } else {
            seq!['$'] + expand_vars(s.subrange(1, n), vars)
        }
    } else {
        seq![s[0]] + expand_vars(s.subrange(1, n), vars)
    }
}

/// Home expansion: a leading `~`, alone or followed by `/`, becomes the
/// home directory when one is available.
pub open spec fn apply_tilde(s: Seq<char>, home: Option<Seq<char>>) -> Seq<char> {
    if s.len() >= 1 && s[0] == '~' && (s.len() == 1 || s[1] == '/') {
        match home {
            Some(h) => h + s.subrange(1, s.len() as int),
            None => s,
        }
    } else {
        s
    }
}

/// Full resolution: home expansion, then variable expansion.
pub open spec fn expand_spec(
    s: Seq<char>,
    home: Option<Seq<char>>,
    vars: Seq<(Seq<char>, Seq<char>)>,
) -> Seq<char> {
    expand_vars(apply_tilde(s, home), vars)
}

/// The view of an optional string slice.
pub open spec fn opt_str_view(s: Option<&str>) -> Option<Seq<char>> {
    match s {
        Some(h) => Some(h@),
        None => None,
    }
}

pub proof fn lemma_find_pos_le(s: Seq<char>, c: char)
    ensures
        find_pos(s, c) <= s.len(),
    decreases s.len(),
{
    if s.len() == 0 {
    } else if s[0] == c {
    } else {
        lemma_find_pos_le(s.subrange(1, s.len() as int), c);
    }
}

pub proof fn lemma_find_pos_char(s: Seq<char>, c: char)
    ensures
        find_pos(s, c) < s.len() ==> s[find_pos(s, c) as int] == c,
        forall|k: int| 0 <= k < find_pos(s, c) ==> s[k] != c,
    decreases s.len(),
{
    if s.len() == 0 {
    } else if s[0] == c {
    } else {
        let tail = s.subrange(1, s.len() as int);
        lemma_find_pos_char(tail, c);
        lemma_find_pos_le(tail, c);
        assert forall|k: int| 0 <= k < find_pos(s, c) implies s[k] != c by {
            if k > 0 {
                assert(tail[k - 1] == s[k]);
            }
        }
    }
}

pub proof fn lemma_name_len_le(s: Seq<char>)
    ensures
        name_len(s) <= s.len(),
    decreases s.len(),
{
    if s.len() > 0 && is_name_char(s[0]) {
        lemma_name_len_le(s.subrange(1, s.len() as int));
    }
}

pub proof fn lemma_name_len_char(s: Seq<char>)
    ensures
        forall|k: int| 0 <= k < name_len(s) ==> is_name_char(s[k]),
        name_len(s) < s.len() ==> !is_name_char(s[name_len(s) as int]),
    decreases s.len(),
{
    if s.len() > 0 && is_name_char(s[0]) {
        let tail = s.subrange(1, s.len() as int);
        lemma_name_len_char(tail);
        lemma_name_len_le(tail);
        assert forall|k: int| 0 <= k < name_len(s) implies is_name_char(s[k]) by {
            if k > 0 {
                assert(tail[k - 1] == s[k]);
            }
        }
        if name_len(s) < s.len() {
            assert(s[name_len(s) as int] == tail[name_len(tail) as int]);
        }
    }
}

pub proof fn lemma_table_lookup_skip(pairs: Seq<(Seq<char>, Seq<char>)>, i: int, name: Seq<char>)
    requires
        0 <= i <= pairs.len(),
        forall|k: int| 0 <= k < i ==> pairs[k].0 != name,
    ensures
        table_lookup(pairs, name) == table_lookup(
            pairs.subrange(i, pairs.len() as int),
            name,
        ),
    decreases i,
{
    if i > 0 {
        let tail = pairs.subrange(1, pairs.len() as int);
        lemma_table_lookup_skip(tail, i - 1, name);
        assert(tail.subrange(i - 1, tail.len() as int) =~= pairs.subrange(
            i,
            pairs.len() as int,
        ));
    } else {
        assert(pairs.subrange(0, pairs.len() as int) =~= pairs);
    }
}

/// Concatenated tables: the left table shadows the right one.
pub proof fn lemma_table_lookup_concat(
    a: Seq<(Seq<char>, Seq<char>)>,
    b: Seq<(Seq<char>, Seq<char>)>,
    name: Seq<char>,
)
    ensures
        table_lookup(a + b, name) == if table_lookup(a, name) is Some {
            table_lookup(a, name)
        } else {
            table_lookup(b, name)
        },
    decreases a.len(),
{
    if a.len() == 0 {
        assert(a + b =~= b);
    } else {
        let tail = a.subrange(1, a.len() as int);
        lemma_table_lookup_concat(tail, b, name);
        assert((a + b).subrange(1, (a + b).len() as int) =~= tail + b);
        assert((a + b)[0] == a[0]);
    }
}

/// A run of non-`$` characters passes through expansion unchanged.
pub proof fn lemma_expand_literal_run(s: Seq<char>, m: int, vars: Seq<(Seq<char>, Seq<char>)>)
    requires
        0 <= m <= s.len(),
        forall|k: int| 0 <= k < m ==> s[k] != '$',
    ensures
        expand_vars(s, vars) == s.subrange(0, m) + expand_vars(
            s.subrange(m, s.len() as int),
            vars,
        ),
    decreases m,
{
    if m == 0 {
        assert(s.subrange(0, s.len() as int) =~= s);
        assert(s.subrange(0, 0) + expand_vars(s, vars) =~= expand_vars(s, vars));
    } else {
        let tail = s.subrange(1, s.len() as int);
        lemma_expand_literal_run(tail, m - 1, vars);
        assert(tail.subrange(0, m - 1) =~= s.subrange(1, m));
        assert(tail.subrange(m - 1, tail.len() as int) =~= s.subrange(m, s.len() as int));
        assert(seq![s[0]] + (s.subrange(1, m) + expand_vars(s.subrange(m, s.len() as int), vars))
            =~= s.subrange(0, m) + expand_vars(s.subrange(m, s.len() as int), vars));
    }
}

/// `s` contains no `$` at all.
pub open spec fn dollar_free(s: Seq<char>) -> bool {
    forall|k: int| 0 <= k < s.len() ==> s[k] != '$'
}

/// Every value in the table is free of `$`.
pub open spec fn values_dollar_free(vars: Seq<(Seq<char>, Seq<char>)>) -> bool {
    forall|i: int| 0 <= i < vars.len() ==> dollar_free(#[trigger] vars[i].1)
}

/// `s` consists of literal text and closed `${NAME}` references only.
pub open spec fn braced_refs_only(s: Seq<char>) -> bool
    decreases s.len(),
{
    let n = s.len() as int;
    if s.len() == 0 {
        true
    } else if s[0] == '$' {
        if s.len() >= 2 && s[1] == '{' {
            let j = find_pos(s.subrange(2, n), '}') as int;
            j < n - 2 && braced_refs_only(s.subrange(3 + j, n))
        } else {
            false
        }
    } else {
        braced_refs_only(s.subrange(1, n))
    }
}

/// A string without `$` passes through variable expansion unchanged.
pub proof fn lemma_expand_no_refs(s: Seq<char>, vars: Seq<(Seq<char>, Seq<char>)>)
    requires
        dollar_free(s),
    ensures
        expand_vars(s, vars) == s,
    decreases s.len(),
{
    if s.len() > 0 {
        let tail = s.subrange(1, s.len() as int);
        lemma_expand_no_refs(tail, vars);
        assert(seq![s[0]] + tail =~= s);
    }
}

/// Every value a lookup can return comes from the table.
proof fn lemma_table_lookup_from_table(
    vars: Seq<(Seq<char>, Seq<char>)>,
    name: Seq<char>,
)
    requires
        values_dollar_free(vars),
    ensures
        dollar_free(lookup_or_empty(vars, name)),
    decreases vars.len(),
{
    if vars.len() > 0 && vars[0].0 != name {
        let tail = vars.subrange(1, vars.len() as int);
        assert forall|i: int| 0 <= i < tail.len() implies dollar_free(#[trigger] tail[i].1) by {
            assert(tail[i] == vars[i + 1]);
        }
        lemma_table_lookup_from_table(tail, name);
    }
}

/// Expanding a template of literal text and `${NAME}` references against
/// `$`-free values yields a `$`-free string.
pub proof fn lemma_expand_result_dollar_free(s: Seq<char>, vars: Seq<(Seq<char>, Seq<char>)>)
    requires
        braced_refs_only(s),
        values_dollar_free(vars),
    ensures
        dollar_free(expand_vars(s, vars)),
    decreases s.len(),
{
    let n = s.len() as int;
    if s.len() == 0 {
    } else if s[0] == '$' {
        let j = find_pos(s.subrange(2, n), '}') as int;
        lemma_table_lookup_from_table(vars, s.subrange(2, 2 + j));
        lemma_expand_result_dollar_free(s.subrange(3 + j, n), vars);
        let value = lookup_or_empty(vars, s.subrange(2, 2 + j));
        let rest = expand_vars(s.subrange(3 + j, n), vars);
        assert forall|k: int| 0 <= k < (value + rest).len() implies (value + rest)[k] != '$' by {
            if k < value.len() {
                assert((value + rest)[k] == value[k]);
            } else {
                assert((value + rest)[k] == rest[k - value.len()]);
            }
        }
    } else {
        lemma_expand_result_dollar_free(s.subrange(1, n), vars);
        let rest = expand_vars(s.subrange(1, n), vars);
        assert forall|k: int| 0 <= k < (seq![s[0]] + rest).len() implies (seq![s[0]] + rest)[k]
            != '$' by {
            if k >= 1 {
                assert((seq![s[0]] + rest)[k] == rest[k - 1]);
            }
        }
    }
}

/// Template roundtrip: for a template of literal text and `${NAME}`
/// references whose values are themselves literal, expansion substitutes
/// every reference and a second expansion with the same table changes
/// nothing.
pub proof fn lemma_template_roundtrip(s: Seq<char>, vars: Seq<(Seq<char>, Seq<char>)>)
    requires
        braced_refs_only(s),
        values_dollar_free(vars),
    ensures
        expand_vars(expand_vars(s, vars), vars) == expand_vars(s, vars),
{
    lemma_expand_result_dollar_free(s, vars);
    lemma_expand_no_refs(expand_vars(s, vars), vars);
}

/// A closed reference at the front of a template expands to the value
/// bound to its name (or to nothing when the name is unbound), followed
/// by the expansion of the rest.
pub proof fn lemma_expand_braced_step(
    name: Seq<char>,
    rest: Seq<char>,
    vars: Seq<(Seq<char>, Seq<char>)>,
)
    requires
        forall|k: int| 0 <= k < name.len() ==> name[k] != '}',
    ensures
        expand_vars(seq!['$', '{'] + name + seq!['}'] + rest, vars) == lookup_or_empty(
            vars,
            name,
        ) + expand_vars(rest, vars),
{
    let s = seq!['$', '{'] + name + seq!['}'] + rest;
    let n = s.len() as int;
    assert(s.len() == name.len() + rest.len() + 3);
    let sub = s.subrange(2, n);
    assert(sub.len() == name.len() + rest.len() + 1);
    assert(forall|k: int| 0 <= k < name.len() ==> sub[k] == name[k]);
    assert(sub[name.len() as int] == '}');
    lemma_find_pos_le(sub, '}');
    lemma_find_pos_char(sub, '}');
    let fp = find_pos(sub, '}') as int;
    if fp < name.len() {
        assert(sub[fp] == name[fp]);
        assert(false);
    }
    if fp > name.len() {
        assert(false);
    }
    assert(fp == name.len());
    assert(s[0] == '$');
    assert(s[1] == '{');
    assert(s.subrange(2, 2 + fp) =~= name);
    assert(s.subrange(3 + fp, n) =~= rest);
}

/// The full roundtrip at the level of [`TemplatedString::resolve`]: when
/// the template does not invoke home expansion and the expanded result
/// does not either, resolving a second time changes nothing.
pub proof fn lemma_resolve_roundtrip(
    s: Seq<char>,
    home: Option<Seq<char>>,
    vars: Seq<(Seq<char>, Seq<char>)>,
)
    requires
        braced_refs_only(s),
        values_dollar_free(vars),
        s.len() > 0 ==> s[0] != '~',
        expand_vars(s, vars).len() > 0 ==> expand_vars(s, vars)[0] != '~',
    ensures
        expand_spec(s, home, vars) == expand_vars(s, vars),
        expand_spec(expand_spec(s, home, vars), home, vars) == expand_spec(s, home, vars),
{
    lemma_template_roundtrip(s, vars);
}

/// An ordered lookup table of variable bindings; earlier entries shadow
/// later ones.
#[derive(Debug, Clone, PartialEq, Eq)]
pub struct VarTable {
    pairs: Vec<(String, String)>,
}

impl View for VarTable {
    type V = Seq<(Seq<char>, Seq<char>)>;

    closed spec fn view(&self) -> Seq<(Seq<char>, Seq<char>)> {
        self.pairs@.map_values(|p: (String, String)| (p.0@, p.1@))
    }
}

impl VarTable {
    pub fn new() -> (r: VarTable)
        ensures
            r@ =~= Seq::<(Seq<char>, Seq<char>)>::empty(),
    {
        VarTable { pairs: Vec::new() }
    }

    pub fn push(&mut self, name: String, value: String)
        ensures
            final(self)@ =~= old(self)@.push((name@, value@)),
    {
        self.pairs.push((name, value));
        proof {
            assert(self@ =~= old(self)@.push((name@, value@)));
        }
    }

    pub fn len(&self) -> (r: usize)
        ensures
            r == self@.len(),
    {
        self.pairs.len()
    }

    /// The pair at a position, as (name, value).
    pub fn entry(&self, i: usize) -> (r: (&String, &String))
        requires
            i < self@.len(),
        ensures
            r.0@ == self@[i as int].0,
            r.1@ == self@[i as int].1,
    {
        let p = &self.pairs[i];
        (&p.0, &p.1)
    }

    /// First value bound to `name`, if any.
    pub fn lookup(&self, name: &str) -> (r: Option<&String>)
        ensures
            match r {
                Some(v) => table_lookup(self@, name@) == Some(v@),
                None => table_lookup(self@, name@) is None,
            },
    {
        let mut i: usize = 0;
        while i < self.pairs.len()
            invariant
                0 <= i <= self@.len(),
                forall|k: int| 0 <= k < i ==> self@[k].0 != name@,
            decreases self@.len() - i,
        {
            proof {
                assert(self@[i as int].0 == self.pairs@[i as int].0@);
                assert(self@[i as int].1 == self.pairs@[i as int].1@);
            }
            if str_eq(self.pairs[i].0.as_str(), name) {
                proof {
                    lemma_table_lookup_skip(self@, i as int, name@);
                    let suffix = self@.subrange(i as int, self@.len() as int);
                    assert(suffix[0] == self@[i as int]);
                }
                return Some(&self.pairs[i].1);
            }
            i += 1;
        }
        proof {
            lemma_table_lookup_skip(self@, self@.len() as int, name@);
            assert(self@.subrange(self@.len() as int, self@.len() as int) =~= Seq::<(
                Seq<char>,
                Seq<char>,
            )>::empty());
        }
        None
    }
}

/// Executable test for [`is_name_char`].
pub fn is_name_char_exec(c: char) -> (r: bool)
    ensures
        r == is_name_char(c),
{
    c == '_' || ('a' <= c && c <= 'z') || ('A' <= c && c <= 'Z') || ('0' <= c && c <= '9')
}

/// Variable expansion over a plain string slice.
#[verifier::rlimit(60)]
fn expand_vars_str(t: &str, vars: &VarTable) -> (r: String)
    ensures
        r@ == expand_vars(t@, vars@),
{
    let len = t.unicode_len();
    let mut out = String::new();
    let mut i: usize = 0;
    proof {
        assert(t@.subrange(0, len as int) =~= t@);
    }
    while i < len
        invariant
            len == t@.len(),
            0 <= i <= len,
            out@ + expand_vars(t@.subrange(i as int, len as int), vars@) == expand_vars(
                t@,
                vars@,
            ),
        decreases len - i,
    {
        let ghost rest = t@.subrange(i as int, len as int);
        let c = t.get_char(i);
        proof {
            assert(rest[0] == t@[i as int]);
        }
        if c != '$' {
            let j = match find_char_from(t, '$', i) {
                Some(j) => j,
                None => len,
            };
            let ghost out0 = out@;
            out.append(t.substring_char(i, j));
            proof {
                assert(forall|k: int| 0 <= k < j - i ==> rest[k] != '$');
                lemma_expand_literal_run(rest, j - i, vars@);
                assert(rest.subrange(0, j - i) =~= t@.subrange(i as int, j as int));
                assert(rest.subrange(j - i, rest.len() as int) =~= t@.subrange(
                    j as int,
                    len as int,
                ));
                assert((out0 + t@.subrange(i as int, j as int)) + expand_vars(
                    t@.subrange(j as int, len as int),
                    vars@,
                ) =~= out0 + (t@.subrange(i as int, j as int) + expand_vars(
                    t@.subrange(j as int, len as int),
                    vars@,
                )));
            }
            i = j;
        } else if i + 1 < len && t.get_char(i + 1) == '{' {
            proof {
                assert(rest[1] == t@[i + 1]);
            }
            let ghost sub = rest.subrange(2, rest.len() as int);
            proof {
                assert(sub =~= t@.subrange(i + 2, len as int));
                lemma_find_pos_le(sub, '}');
                lemma_find_pos_char(sub, '}');
            }
            match find_char_from(t, '}', i + 2) {
                Some(cl) => {
                    proof {
                        // both sides describe the first `}` at or after i+2
                        let fp = find_pos(sub, '}') as int;
                        assert(forall|k: int|
                            0 <= k < cl - i - 2 ==> sub[k] == t@[i + 2 + k] && sub[k] != '}');
                        if fp < cl - i - 2 {
                            assert(t@[i + 2 + fp] == sub[fp]);
                            assert(false);
                        }
                        if fp > cl - i - 2 {
                            assert(sub[cl - i - 2] == t@[cl as int]);
                            assert(false);
                        }
                        assert(fp == cl - i - 2);
                    }
                    let name = t.substring_char(i + 2, cl);
                    let ghost out0 = out@;
                    match vars.lookup(name) {
                        Some(v) => {
                            let value = v.clone();
                            out.append(value.as_str());
                        },
                        None => {},
                    }
                    proof {
                        let n = rest.len() as int;
                        let j = find_pos(rest.subrange(2, n), '}') as int;
                        assert(rest.subrange(2, n) =~= sub);
                        assert(j == cl - i - 2);
                        assert(j < n - 2);
                        assert(rest.subrange(2, 2 + j) =~= t@.subrange(i + 2, cl as int));
                        assert(name@ == rest.subrange(2, 2 + j));
                        assert(rest.subrange(3 + j, n) =~= t@.subrange(cl + 1, len as int));
                        assert(expand_vars(rest, vars@) == lookup_or_empty(vars@, name@)
                            + expand_vars(t@.subrange(cl + 1, len as int), vars@));
                        assert((out0 + lookup_or_empty(vars@, name@)) + expand_vars(
                            t@.subrange(cl + 1, len as int),
                            vars@,
                        ) =~= out0 + (lookup_or_empty(vars@, name@) + expand_vars(
                            t@.subrange(cl + 1, len as int),
                            vars@,
                        )));
                        assert(out@ =~= out0 + lookup_or_empty(vars@, name@));
                    }
                    i = cl + 1;
                },
                None => {
                    let ghost out0 = out@;
                    out.append(t.substring_char(i, i + 2));
                    proof {
                        let n = rest.len() as int;
                        let j = find_pos(rest.subrange(2, n), '}') as int;
                        assert(rest.subrange(2, n) =~= sub);
                        assert(forall|k: int| 0 <= k < sub.len() ==> sub[k] == t@[i + 2 + k]);
                        assert(j == sub.len());
                        assert(t@.subrange(i as int, i + 2) =~= seq!['$', '{']);
                        assert(rest.subrange(2, n) =~= t@.subrange(i + 2, len as int));
                        assert(expand_vars(rest, vars@) == seq!['$', '{'] + expand_vars(
                            t@.subrange(i + 2, len as int),
                            vars@,
                        ));
                        assert((out0 + seq!['$', '{']) + expand_vars(
                            t@.subrange(i + 2, len as int),
                            vars@,
                        ) =~= out0 + (seq!['$', '{'] + expand_vars(
                            t@.subrange(i + 2, len as int),
                            vars@,
                        )));
                    }
                    i = i + 2;
                },
            }
        } else if i + 1 < len && is_name_char_exec(t.get_char(i + 1)) {
            proof {
                assert(rest[1] == t@[i + 1]);
            }
            let mut j = i + 1;
            while j < len && is_name_char_exec(t.get_char(j))
                invariant
                    len == t@.len(),
                    i + 1 <= j <= len,
                    forall|k: int| i + 1 <= k < j ==> is_name_char(t@[k]),
                decreases len - j,
            {
                j += 1;
            }
            let name = t.substring_char(i + 1, j);
            let ghost out0 = out@;
            match vars.lookup(name) {
                Some(v) => {
                    let value = v.clone();
                    out.append(value.as_str());
                },
                None => {},
            }
            proof {
                let n = rest.len() as int;
                let sub = rest.subrange(1, n);
                assert(sub =~= t@.subrange(i + 1, len as int));
                lemma_name_len_le(sub);
                lemma_name_len_char(sub);
                let nl = name_len(sub) as int;
                assert(forall|k: int| 0 <= k < j - i - 1 ==> sub[k] == t@[i + 1 + k]);
                if nl < j - i - 1 {
                    assert(is_name_char(t@[i + 1 + nl]));
                    assert(!is_name_char(sub[nl]));
                    assert(false);
                }
                if nl > j - i - 1 {
                    assert(j < len);
                    assert(is_name_char(sub[j - i - 1]));
                    assert(sub[j - i - 1] == t@[j as int]);
                    assert(false);
                }
                assert(nl == j - i - 1);
                assert(rest.subrange(1, 1 + nl) =~= t@.subrange(i + 1, j as int));
                assert(name@ == rest.subrange(1, 1 + nl));
                assert(rest.subrange(1 + nl, n) =~= t@.subrange(j as int, len as int));
                assert(expand_vars(rest, vars@) == lookup_or_empty(vars@, name@) + expand_vars(
                    t@.subrange(j as int, len as int),
                    vars@,
                ));
                assert((out0 + lookup_or_empty(vars@, name@)) + expand_vars(
                    t@.subrange(j as int, len as int),
                    vars@,
                ) =~= out0 + (lookup_or_empty(vars@, name@) + expand_vars(
                    t@.subrange(j as int, len as int),
                    vars@,
                )));
                assert(out@ =~= out0 + lookup_or_empty(vars@, name@));
            }
            i = j;
        } else {
            let ghost out0 = out@;
            out.append(t.substring_char(i, i + 1));
            proof {
                let n = rest.len() as int;
                assert(t@.subrange(i as int, i + 1) =~= seq!['$']);
                assert(rest.subrange(1, n) =~= t@.subrange(i + 1, len as int));
                if rest.len() >= 2 {
                    assert(rest[1] == t@[i + 1]);
                }
                assert(expand_vars(rest, vars@) == seq!['$'] + expand_vars(
                    t@.subrange(i + 1, len as int),
                    vars@,
                ));
                assert((out0 + seq!['$']) + expand_vars(
                    t@.subrange(i + 1, len as int),
                    vars@,
                ) =~= out0 + (seq!['$'] + expand_vars(
                    t@.subrange(i + 1, len as int),
                    vars@,
                )));
            }
            i = i + 1;
        }
    }
    proof {
        assert(t@.subrange(len as int, len as int) =~= Seq::<char>::empty());
        assert(out@ + Seq::<char>::empty() =~= out@);
    }
    out
}

/// Full expansion of a plain string slice: home expansion, then variable
/// expansion.
pub fn expand_str(s: &str, home: Option<&str>, vars: &VarTable) -> (r: String)
    ensures
        r@ == expand_spec(s@, opt_str_view(home), vars@),
{
    let len = s.unicode_len();
    let tilded: String = if len >= 1 && s.get_char(0) == '~' && (len == 1 || s.get_char(1) == '/') {
        match home {
            Some(h) => {
                let mut t = h.to_owned();
                t.append(s.substring_char(1, len));
                proof {
                    assert(t@ == apply_tilde(s@, opt_str_view(home)));
                }
                t
            },
            None => s.to_owned(),
        }
    } else {
        s.to_owned()
    };
    expand_vars_str(tilded.as_str(), vars)
}

impl TemplatedString {
    /// Resolve the template: `~` becomes `home` (when given), `$NAME` and
    /// `${NAME}` become their value in `vars`, missing variables become
    /// empty, and everything else passes through unchanged.
    pub fn resolve(&self, home: Option<&str>, vars: &VarTable) -> (r: String)
        ensures
            r@ == expand_spec(self@, opt_str_view(home), vars@),
    {
        expand_str(self.as_str(), home, vars)
    }
}

} // verus!
