//! Template variables and their substitution into text.
//!
//! Two placeholder forms are recognised. `{{name}}` stands for the value
//! bound to `name` in the context and is left as it is where `name` is
//! unbound. `${NAME:default}` stands for the value of `NAME` in the
//! environment, else for its value in the context, else for the default.
//! A text is expanded in two passes, the first form before the second.

use crate::bindings::{bind, bind_all, lookup, Bindings, Entry};
use crate::text::{chars_of, push_chars, text_of};
use vstd::prelude::*;

verus! {

/// Whether the `regex` crate finds a match of `pattern` somewhere in
/// `text`; `false` where it refuses the pattern.
pub uninterp spec fn regex_matches(pattern: Seq<char>, text: Seq<char>) -> bool;

/// `Regex::new` on `pattern`, then `Regex::is_match` on `text`. Believed
/// without proof: the result is `regex_matches` of the two, the same for the
/// same pattern and text, and `false` where `Regex::new` reports an error.
#[verifier::external_body]
fn regex_is_match(pattern: &str, text: &str) -> (r: bool)
    ensures
        r == regex_matches(pattern@, text@),
{
    match regex::Regex::new(pattern) {
        Ok(re) => re.is_match(text),
        Err(_) => false,
    }
}

/// Whether a character beyond ASCII is a word character: whether the
/// pattern `\w` matches the text made of it alone.
pub open spec fn unicode_word(c: char) -> bool {
    regex_matches("\\w"@, seq![c])
}

/// Tests whether a character beyond ASCII is a word character.
fn is_unicode_word(c: char) -> (r: bool)
    ensures
        r == unicode_word(c),
{
    let mut text = String::new();
    text.push(c);
    proof {
        assert(text@ =~= seq![c]);
    }
    regex_is_match("\\w", text.as_str())
}

/// A character that may stand in a variable name: within ASCII a letter, a
/// digit or `_`; beyond ASCII, what `unicode_word` holds.
pub open spec fn word_char(c: char) -> bool {
    if (c as u32) < 128 {
        ('a' <= c && c <= 'z') || ('A' <= c && c <= 'Z') || ('0' <= c && c <= '9') || c == '_'
    } else {
        unicode_word(c)
    }
}

/// The length of the longest prefix of `s` made of word characters.
pub open spec fn word_run(s: Seq<char>) -> nat
    decreases s.len(),
{
    if s.len() > 0 && word_char(s[0]) {
        1 + word_run(s.skip(1))
    } else {
        0
    }
}

/// The length of the longest prefix of `s` that holds neither `:` nor `}`.
pub open spec fn name_run(s: Seq<char>) -> nat
    decreases s.len(),
{
    if s.len() > 0 && s[0] != ':' && s[0] != '}' {
        1 + name_run(s.skip(1))
    } else {
        0
    }
}

/// The length of the longest prefix of `s` that holds no `}`.
pub open spec fn default_run(s: Seq<char>) -> nat
    decreases s.len(),
{
    if s.len() > 0 && s[0] != '}' {
        1 + default_run(s.skip(1))
    } else {
        0
    }
}

/// The name of the placeholder `{{name}}` that `s` starts with, if it starts
/// with one: two opening braces, one or more word characters, two closing
/// braces.
pub open spec fn var_placeholder(s: Seq<char>) -> Option<Seq<char>> {
    if s.len() >= 2 && s[0] == '{' && s[1] == '{' {
        let n = word_run(s.skip(2)) as int;
        if n >= 1 && s.len() >= n + 4 && s[2 + n] == '}' && s[3 + n] == '}' {
            Some(s.subrange(2, 2 + n))
        } else {
            None
        }
    } else {
        None
    }
}

/// A placeholder of the form `${NAME}` or `${NAME:default}`.
pub struct EnvPlaceholder {
    /// The name: one or more characters other than `:` and `}`.
    pub name: Seq<char>,
    /// The default: characters other than `}`; empty where none is given.
    pub default: Seq<char>,
    /// The length of the whole placeholder.
    pub len: nat,
}

/// The placeholder `${NAME}` or `${NAME:default}` that `s` starts with, if it
/// starts with one.
pub open spec fn env_placeholder(s: Seq<char>) -> Option<EnvPlaceholder> {
    if s.len() >= 2 && s[0] == '$' && s[1] == '{' {
        let n = name_run(s.skip(2)) as int;
        if n >= 1 && 2 + n < s.len() {
            if s[2 + n] == '}' {
                Some(
                    EnvPlaceholder {
                        name: s.subrange(2, 2 + n),
                        default: Seq::empty(),
                        len: (n + 3) as nat,
                    },
                )
            } else {
                let d = default_run(s.skip(3 + n)) as int;
                if 3 + n + d < s.len() {
                    Some(
                        EnvPlaceholder {
                            name: s.subrange(2, 2 + n),
                            default: s.subrange(3 + n, 3 + n + d),
                            len: (n + d + 4) as nat,
                        },
                    )
                } else {
                    None
                }
            }
        } else {
            None
        }
    } else {
        None
    }
}

/// The first pass: every `{{name}}` whose name is bound in `vars` gives way
/// to the bound value; everything else stays.
pub open spec fn expand_vars(vars: Seq<Entry>, s: Seq<char>) -> Seq<char>
    decreases s.len(),
{
    if s.len() == 0 {
        s
    } else {
        match var_placeholder(s) {
            Some(name) => {
                let rest = expand_vars(vars, s.skip(name.len() + 4 as int));
                match lookup(vars, name) {
                    Some(value) => value + rest,
                    None => s.take(name.len() + 4 as int) + rest,
                }
            },
            None => seq![s[0]] + expand_vars(vars, s.skip(1)),
        }
    }
}

/// What an environment-style placeholder stands for: the value of the name
/// in the environment, else its value in the context, else the default.
pub open spec fn resolve_env(
    env: Seq<Entry>,
    vars: Seq<Entry>,
    name: Seq<char>,
    default: Seq<char>,
) -> Seq<char> {
    match lookup(env, name) {
        Some(value) => value,
        None => match lookup(vars, name) {
            Some(value) => value,
            None => default,
        },
    }
}

/// The second pass: every `${NAME}` and `${NAME:default}` gives way to what
/// it stands for; everything else stays.
pub open spec fn expand_env(env: Seq<Entry>, vars: Seq<Entry>, s: Seq<char>) -> Seq<char>
    decreases s.len(),
{
    if s.len() == 0 {
        s
    } else {
        match env_placeholder(s) {
            Some(p) => resolve_env(env, vars, p.name, p.default) + expand_env(
                env,
                vars,
                s.skip(p.len as int),
            ),
            None => seq![s[0]] + expand_env(env, vars, s.skip(1)),
        }
    }
}

/// The text after both passes.
pub open spec fn substitute(env: Seq<Entry>, vars: Seq<Entry>, s: Seq<char>) -> Seq<char> {
    expand_env(env, vars, expand_vars(vars, s))
}

/// The bindings after merging `more` into `vars`, first to last, each value
/// expanded against the environment and the bindings made so far.
pub open spec fn bind_config(env: Seq<Entry>, vars: Seq<Entry>, more: Seq<Entry>) -> Seq<Entry>
    decreases more.len(),
{
    if more.len() == 0 {
        vars
    } else {
        let so_far = bind_config(env, vars, more.drop_last());
        bind(so_far, more.last().0, substitute(env, so_far, more.last().1))
    }
}

/// Tests whether `c` may stand in a variable name.
fn is_word_char(c: char) -> (r: bool)
    ensures
        r == word_char(c),
{
    if (c as u32) < 128 {
        ('a' <= c && c <= 'z') || ('A' <= c && c <= 'Z') || ('0' <= c && c <= '9') || c == '_'
    } else {
        is_unicode_word(c)
    }
}

/// The length of the run of word characters that starts at `from`.
fn word_run_at(v: &Vec<char>, from: usize) -> (n: usize)
    requires
        from <= v.len(),
    ensures
        n == word_run(v@.skip(from as int)),
        from + n <= v.len(),
{
    let mut i: usize = from;
    while i < v.len() && is_word_char(v[i])
        invariant
            from <= i <= v.len(),
            word_run(v@.skip(from as int)) == (i - from) + word_run(v@.skip(i as int)),
        decreases v.len() - i,
    {
        proof {
            assert(v@.skip(i as int)[0] == v@[i as int]);
            assert(v@.skip(i as int).skip(1) =~= v@.skip(i + 1));
        }
        i += 1;
    }
    proof {
        if i < v.len() {
            assert(v@.skip(i as int)[0] == v@[i as int]);
        }
    }
    i - from
}

/// The length of the run of characters from `from` on that are neither `:`
/// (where `stop_at_colon`) nor `}`.
fn plain_run_at(v: &Vec<char>, from: usize, stop_at_colon: bool) -> (n: usize)
    requires
        from <= v.len(),
    ensures
        stop_at_colon ==> n == name_run(v@.skip(from as int)),
        !stop_at_colon ==> n == default_run(v@.skip(from as int)),
        from + n <= v.len(),
        from + n < v.len() ==> (v@[from + n] == '}' || (stop_at_colon && v@[from + n] == ':')),
{
    let mut i: usize = from;
    while i < v.len() && v[i] != '}' && !(stop_at_colon && v[i] == ':')
        invariant
            from <= i <= v.len(),
            stop_at_colon ==> name_run(v@.skip(from as int)) == (i - from) + name_run(
                v@.skip(i as int),
            ),
            !stop_at_colon ==> default_run(v@.skip(from as int)) == (i - from) + default_run(
                v@.skip(i as int),
            ),
        decreases v.len() - i,
    {
        proof {
            assert(v@.skip(i as int)[0] == v@[i as int]);
            assert(v@.skip(i as int).skip(1) =~= v@.skip(i + 1));
        }
        i += 1;
    }
    proof {
        if i < v.len() {
            assert(v@.skip(i as int)[0] == v@[i as int]);
        }
    }
    i - from
}

/// The length of the name of the placeholder `{{name}}` that starts at `at`,
/// if one starts there.
fn var_placeholder_at(v: &Vec<char>, at: usize) -> (r: Option<usize>)
    requires
        at < v.len(),
    ensures
        match r {
            Some(n) => at + n + 4 <= v.len() && var_placeholder(v@.skip(at as int)) == Some(
                v@.subrange(at + 2, at + 2 + n),
            ),
            None => var_placeholder(v@.skip(at as int)) is None,
        },
{
    let ghost s = v@.skip(at as int);
    if v.len() - at < 2 || v[at] != '{' || v[at + 1] != '{' {
        proof {
            assert(s[0] == v@[at as int]);
            if s.len() >= 2 {
                assert(s[1] == v@[at + 1]);
            }
        }
        return None;
    }
    let n = word_run_at(v, at + 2);
    proof {
        assert(s[0] == v@[at as int]);
        assert(s[1] == v@[at + 1]);
        assert(s.skip(2) =~= v@.skip(at + 2));
        if s.len() >= n + 4 {
            assert(s[2 + n] == v@[at + 2 + n]);
            assert(s[3 + n] == v@[at + 3 + n]);
        }
        assert(s.subrange(2, 2 + n) =~= v@.subrange(at + 2, at + 2 + n));
    }
    if n >= 1 && v.len() - at - 2 - n >= 2 && v[at + 2 + n] == '}' && v[at + 3 + n] == '}' {
        Some(n)
    } else {
        None
    }
}

/// The lengths of the name and of the default of the placeholder that
/// starts at `at`, and its whole length, if one starts there.
fn env_placeholder_at(v: &Vec<char>, at: usize) -> (r: Option<(usize, usize, usize)>)
    requires
        at < v.len(),
    ensures
        match r {
            Some((n, d, len)) => at + len <= v.len() && (len == n + 3 || len == n + d + 4) && (len
                == n + 3 ==> d == 0) && env_placeholder(v@.skip(at as int)) == Some(
                EnvPlaceholder {
                    name: v@.subrange(at + 2, at + 2 + n),
                    default: if len == n + 3 {
                        Seq::empty()
                    } else {
                        v@.subrange(at + 3 + n, at + 3 + n + d)
                    },
                    len: len as nat,
                },
            ),
            None => env_placeholder(v@.skip(at as int)) is None,
        },
{
    let ghost s = v@.skip(at as int);
    if v.len() - at < 2 || v[at] != '$' || v[at + 1] != '{' {
        proof {
            assert(s[0] == v@[at as int]);
            if s.len() >= 2 {
                assert(s[1] == v@[at + 1]);
            }
        }
        return None;
    }
    let n = plain_run_at(v, at + 2, true);
    proof {
        assert(s[0] == v@[at as int]);
        assert(s[1] == v@[at + 1]);
        assert(s.skip(2) =~= v@.skip(at + 2));
        assert(s.subrange(2, 2 + n) =~= v@.subrange(at + 2, at + 2 + n));
        if 2 + n < s.len() {
            assert(s[2 + n] == v@[at + 2 + n]);
        }
    }
    if n < 1 || at + 2 + n >= v.len() {
        return None;
    }
    if v[at + 2 + n] == '}' {
        return Some((n, 0, n + 3));
    }
    let d = plain_run_at(v, at + 3 + n, false);
    proof {
        assert(s.skip(3 + n) =~= v@.skip(at + 3 + n));
        assert(s.subrange(3 + n, 3 + n + d) =~= v@.subrange(at + 3 + n, at + 3 + n + d));
    }
    if at + 3 + n + d < v.len() {
        Some((n, d, n + d + 4))
    } else {
        None
    }
}

/// The value bound to the name `v[from..to]` in `table`, as characters.
fn lookup_range(table: &Bindings, v: &Vec<char>, from: usize, to: usize) -> (r: Option<
    Vec<char>,
>)
    requires
        from <= to <= v.len(),
    ensures
        match r {
            Some(value) => lookup(table@, v@.subrange(from as int, to as int)) == Some(value@),
            None => lookup(table@, v@.subrange(from as int, to as int)) is None,
        },
{
    let name = crate::text::text_of_range(v, from, to);
    match table.get(name.as_str()) {
        Some(value) => Some(chars_of(value.as_str())),
        None => None,
    }
}

/// The first pass over `v`.
fn expand_vars_in(vars: &Bindings, v: &Vec<char>) -> (out: Vec<char>)
    ensures
        out@ == expand_vars(vars@, v@),
{
    let mut out: Vec<char> = Vec::new();
    let mut i: usize = 0;
    proof {
        assert(v@.skip(0) =~= v@);
        assert(out@ + expand_vars(vars@, v@) =~= expand_vars(vars@, v@));
    }
    while i < v.len()
        invariant
            i <= v.len(),
            out@ + expand_vars(vars@, v@.skip(i as int)) == expand_vars(vars@, v@),
        decreases v.len() - i,
    {
        let ghost s = v@.skip(i as int);
        let ghost before = out@;
        match var_placeholder_at(v, i) {
            Some(n) => {
                let ghost rest = expand_vars(vars@, s.skip(n + 4));
                proof {
                    assert(s.subrange(2, 2 + n) =~= v@.subrange(i + 2, i + 2 + n));
                    assert(s.skip(n + 4) =~= v@.skip(i + n + 4));
                    assert(s.take(n + 4) =~= v@.subrange(i as int, i + n + 4));
                }
                match lookup_range(vars, v, i + 2, i + 2 + n) {
                    Some(value) => {
                        push_chars(&mut out, &value);
                        proof {
                            assert(out@ + rest =~= before + (value@ + rest));
                        }
                    },
                    None => {
                        let literal = crate::text::slice_chars(v, i, i + n + 4);
                        push_chars(&mut out, &literal);
                        proof {
                            assert(out@ + rest =~= before + (literal@ + rest));
                        }
                    },
                }
                i = i + n + 4;
            },
            None => {
                out.push(v[i]);
                proof {
                    let rest = expand_vars(vars@, s.skip(1));
                    assert(s[0] == v@[i as int]);
                    assert(s.skip(1) =~= v@.skip(i + 1));
                    assert(out@ + rest =~= before + (seq![s[0]] + rest));
                }
                i = i + 1;
            },
        }
    }
    proof {
        assert(out@ + Seq::<char>::empty() =~= out@);
    }
    out
}

/// The second pass over `v`.
fn expand_env_in(env: &Bindings, vars: &Bindings, v: &Vec<char>) -> (out: Vec<char>)
    ensures
        out@ == expand_env(env@, vars@, v@),
{
    let mut out: Vec<char> = Vec::new();
    let mut i: usize = 0;
    proof {
        assert(v@.skip(0) =~= v@);
        assert(out@ + expand_env(env@, vars@, v@) =~= expand_env(env@, vars@, v@));
    }
    while i < v.len()
        invariant
            i <= v.len(),
            out@ + expand_env(env@, vars@, v@.skip(i as int)) == expand_env(env@, vars@, v@),
        decreases v.len() - i,
    {
        let ghost s = v@.skip(i as int);
        let ghost before = out@;
        match env_placeholder_at(v, i) {
            Some((n, d, len)) => {
                let ghost rest = expand_env(env@, vars@, s.skip(len as int));
                let ghost p = env_placeholder(s)->0;
                proof {
                    assert(s.skip(len as int) =~= v@.skip(i + len));
                }
                let value: Vec<char> = match lookup_range(env, v, i + 2, i + 2 + n) {
                    Some(value) => value,
                    None => match lookup_range(vars, v, i + 2, i + 2 + n) {
                        Some(value) => value,
                        None => {
                            if len == n + 3 {
                                Vec::new()
                            } else {
                                crate::text::slice_chars(v, i + 3 + n, i + 3 + n + d)
                            }
                        },
                    },
                };
                proof {
                    assert(value@ =~= resolve_env(env@, vars@, p.name, p.default));
                }
                push_chars(&mut out, &value);
                proof {
                    assert(out@ + rest =~= before + (value@ + rest));
                }
                i = i + len;
            },
            None => {
                out.push(v[i]);
                proof {
                    let rest = expand_env(env@, vars@, s.skip(1));
                    assert(s[0] == v@[i as int]);
                    assert(s.skip(1) =~= v@.skip(i + 1));
                    assert(out@ + rest =~= before + (seq![s[0]] + rest));
                }
                i = i + 1;
            },
        }
    }
    proof {
        assert(out@ + Seq::<char>::empty() =~= out@);
    }
    out
}

/// The template variables in force for one execution, and the environment
/// that `${NAME:default}` placeholders consult first.
#[derive(Debug)]
pub struct VariableContext {
    /// The bindings of the context.
    pub vars: Bindings,
    /// The environment: a read-only table handed in by the caller.
    pub env: Bindings,
}

impl Clone for VariableContext {
    fn clone(&self) -> (r: VariableContext)
        ensures
            r.vars@ == self.vars@,
            r.env@ == self.env@,
    {
        VariableContext { vars: self.vars.clone(), env: self.env.clone() }
    }
}

impl VariableContext {
    /// A context without bindings and with an empty environment.
    pub fn new() -> (r: VariableContext)
        ensures
            r.vars@ == Seq::<Entry>::empty(),
            r.env@ == Seq::<Entry>::empty(),
    {
        VariableContext { vars: Bindings::new(), env: Bindings::new() }
    }

    /// The same context with `env` as its environment.
    pub fn with_environment(self, env: Bindings) -> (r: VariableContext)
        ensures
            r.vars@ == self.vars@,
            r.env@ == env@,
    {
        VariableContext { vars: self.vars, env }
    }

    /// Binds every variable of the environment in the context.
    pub fn with_env_vars(self) -> (r: VariableContext)
        ensures
            r.vars@ == bind_all(self.vars@, self.env@),
            r.env@ == self.env@,
    {
        let mut r = self;
        let mut i: usize = 0;
        proof {
            assert(r.env@.take(0) =~= Seq::<Entry>::empty());
        }
        while i < r.env.len()
            invariant
                i <= r.env@.len(),
                r.env@ == self.env@,
                r.vars@ == bind_all(self.vars@, self.env@.take(i as int)),
            decreases r.env@.len() - i,
        {
            let key = r.env.key_at(i).clone();
            let value = r.env.value_at(i).clone();
            proof {
                assert(self.env@.take(i + 1).drop_last() =~= self.env@.take(i as int));
                assert(self.env@.take(i + 1).last() == self.env@[i as int]);
            }
            r.vars.insert(key, value);
            i += 1;
        }
        proof {
            assert(self.env@.take(self.env@.len() as int) =~= self.env@);
        }
        r
    }

    /// Merges the variables that a suite declares, first to last. Each value
    /// is expanded against the context as built so far, so that a later
    /// variable may refer to an earlier one.
    pub fn with_config_vars(self, config_vars: Option<&Bindings>) -> (r: VariableContext)
        ensures
            r.env@ == self.env@,
            r.vars@ == match config_vars {
                Some(more) => bind_config(self.env@, self.vars@, more@),
                None => self.vars@,
            },
    {
        let mut r = self;
        if let Some(more) = config_vars {
            let mut i: usize = 0;
            proof {
                assert(more@.take(0) =~= Seq::<Entry>::empty());
            }
            while i < more.len()
                invariant
                    i <= more@.len(),
                    r.env@ == self.env@,
                    r.vars@ == bind_config(self.env@, self.vars@, more@.take(i as int)),
                decreases more@.len() - i,
            {
                let key = more.key_at(i).clone();
                let value = r.substitute_variables(more.value_at(i).as_str());
                proof {
                    assert(more@.take(i + 1).drop_last() =~= more@.take(i as int));
                    assert(more@.take(i + 1).last() == more@[i as int]);
                }
                r.vars.insert(key, value);
                i += 1;
            }
            proof {
                assert(more@.take(more@.len() as int) =~= more@);
            }
        }
        r
    }

    /// Binds the columns of one data row, as they are.
    pub fn with_data_row(self, data: &Bindings) -> (r: VariableContext)
        ensures
            r.env@ == self.env@,
            r.vars@ == bind_all(self.vars@, data@),
    {
        let mut r = self;
        let mut i: usize = 0;
        proof {
            assert(data@.take(0) =~= Seq::<Entry>::empty());
        }
        while i < data.len()
            invariant
                i <= data@.len(),
                r.env@ == self.env@,
                r.vars@ == bind_all(self.vars@, data@.take(i as int)),
            decreases data@.len() - i,
        {
            let key = data.key_at(i).clone();
            let value = data.value_at(i).clone();
            proof {
                assert(data@.take(i + 1).drop_last() =~= data@.take(i as int));
                assert(data@.take(i + 1).last() == data@[i as int]);
            }
            r.vars.insert(key, value);
            i += 1;
        }
        proof {
            assert(data@.take(data@.len() as int) =~= data@);
        }
        r
    }

    /// Binds `key` to `value`.
    pub fn set_variable(&mut self, key: String, value: String)
        ensures
            final(self).vars@ == bind(old(self).vars@, key@, value@),
            final(self).env@ == old(self).env@,
    {
        self.vars.insert(key, value);
    }

    /// Binds `key` to `value`.
    pub fn set(&mut self, key: String, value: String)
        ensures
            final(self).vars@ == bind(old(self).vars@, key@, value@),
            final(self).env@ == old(self).env@,
    {
        self.vars.insert(key, value);
    }

    /// Expands the placeholders of `text`. Never fails: a placeholder that
    /// cannot be resolved stays, or gives its default.
    pub fn substitute_variables(&self, text: &str) -> (r: String)
        ensures
            r@ == substitute(self.env@, self.vars@, text@),
    {
        let chars = chars_of(text);
        let first = expand_vars_in(&self.vars, &chars);
        let second = expand_env_in(&self.env, &self.vars, &first);
        text_of(&second)
    }
}

} // verus!
