//! What holds of substitution on every input.

use crate::bindings::{lookup, Entry};
use crate::runner::variables::{
    default_run, env_placeholder, expand_env, expand_vars, name_run, resolve_env, substitute,
    var_placeholder, word_char, word_run,
};
use vstd::prelude::*;

verus! {

/// Whether a placeholder `{{name}}` starts somewhere in `s`.
pub open spec fn has_var_placeholder(s: Seq<char>) -> bool {
    exists|i: int| 0 <= i < s.len() && (#[trigger] var_placeholder(s.skip(i))) is Some
}

/// Whether a placeholder `${NAME}` or `${NAME:default}` starts somewhere in
/// `s`.
pub open spec fn has_env_placeholder(s: Seq<char>) -> bool {
    exists|i: int| 0 <= i < s.len() && (#[trigger] env_placeholder(s.skip(i))) is Some
}

/// A variable name: one or more word characters.
pub open spec fn is_name(name: Seq<char>) -> bool {
    name.len() > 0 && forall|i: int| 0 <= i < name.len() ==> word_char(#[trigger] name[i])
}

/// The placeholder `{{name}}`.
pub open spec fn var_ref(name: Seq<char>) -> Seq<char> {
    seq!['{', '{'] + name + seq!['}', '}']
}

/// The placeholder `${name}`.
pub open spec fn env_ref(name: Seq<char>) -> Seq<char> {
    seq!['$', '{'] + name + seq!['}']
}

/// The placeholder `${name:default}`.
pub open spec fn env_ref_with_default(name: Seq<char>, default: Seq<char>) -> Seq<char> {
    seq!['$', '{'] + name + seq![':'] + default + seq!['}']
}

/// A name for the environment: one or more characters other than `:` and
/// `}`.
pub open spec fn is_env_name(name: Seq<char>) -> bool {
    name.len() > 0 && forall|i: int|
        0 <= i < name.len() ==> (#[trigger] name[i]) != ':' && name[i] != '}'
}

/// A default: characters other than `}`.
pub open spec fn is_default(default: Seq<char>) -> bool {
    forall|i: int| 0 <= i < default.len() ==> (#[trigger] default[i]) != '}'
}

proof fn lemma_word_run(prefix: Seq<char>, rest: Seq<char>)
    requires
        forall|i: int| 0 <= i < prefix.len() ==> word_char(#[trigger] prefix[i]),
        rest.len() == 0 || !word_char(rest[0]),
    ensures
        word_run(prefix + rest) == prefix.len(),
    decreases prefix.len(),
{
    let s = prefix + rest;
    if prefix.len() == 0 {
        assert(s =~= rest);
    } else {
        assert(s[0] == prefix[0]);
        assert(s.skip(1) =~= prefix.skip(1) + rest);
        assert forall|i: int| 0 <= i < prefix.skip(1).len() implies word_char(
            #[trigger] prefix.skip(1)[i],
        ) by {
            assert(prefix.skip(1)[i] == prefix[i + 1]);
        }
        lemma_word_run(prefix.skip(1), rest);
    }
}

proof fn lemma_name_run(prefix: Seq<char>, rest: Seq<char>)
    requires
        forall|i: int| 0 <= i < prefix.len() ==> (#[trigger] prefix[i]) != ':' && prefix[i] != '}',
        rest.len() == 0 || rest[0] == ':' || rest[0] == '}',
    ensures
        name_run(prefix + rest) == prefix.len(),
    decreases prefix.len(),
{
    let s = prefix + rest;
    if prefix.len() == 0 {
        assert(s =~= rest);
    } else {
        assert(s[0] == prefix[0]);
        assert(s.skip(1) =~= prefix.skip(1) + rest);
        assert forall|i: int| 0 <= i < prefix.skip(1).len() implies (#[trigger] prefix.skip(
            1,
        )[i]) != ':' && prefix.skip(1)[i] != '}' by {
            assert(prefix.skip(1)[i] == prefix[i + 1]);
        }
        lemma_name_run(prefix.skip(1), rest);
    }
}

proof fn lemma_default_run(prefix: Seq<char>, rest: Seq<char>)
    requires
        forall|i: int| 0 <= i < prefix.len() ==> (#[trigger] prefix[i]) != '}',
        rest.len() == 0 || rest[0] == '}',
    ensures
        default_run(prefix + rest) == prefix.len(),
    decreases prefix.len(),
{
    let s = prefix + rest;
    if prefix.len() == 0 {
        assert(s =~= rest);
    } else {
        assert(s[0] == prefix[0]);
        assert(s.skip(1) =~= prefix.skip(1) + rest);
        assert forall|i: int| 0 <= i < prefix.skip(1).len() implies (#[trigger] prefix.skip(
            1,
        )[i]) != '}' by {
            assert(prefix.skip(1)[i] == prefix[i + 1]);
        }
        lemma_default_run(prefix.skip(1), rest);
    }
}

/// The first pass leaves a text without `{{name}}` placeholders as it is.
pub proof fn lemma_expand_vars_plain(vars: Seq<Entry>, s: Seq<char>)
    requires
        !has_var_placeholder(s),
    ensures
        expand_vars(vars, s) == s,
    decreases s.len(),
{
    if s.len() > 0 {
        assert(s.skip(0) =~= s);
        assert(var_placeholder(s.skip(0)) is None);
        let rest = s.skip(1);
        assert forall|i: int| 0 <= i < rest.len() implies (#[trigger] var_placeholder(
            rest.skip(i),
        )) is None by {
            assert(rest.skip(i) =~= s.skip(i + 1));
        }
        lemma_expand_vars_plain(vars, rest);
        assert(seq![s[0]] + rest =~= s);
    }
}

/// The second pass leaves a text without `${NAME}` placeholders as it is.
pub proof fn lemma_expand_env_plain(env: Seq<Entry>, vars: Seq<Entry>, s: Seq<char>)
    requires
        !has_env_placeholder(s),
    ensures
        expand_env(env, vars, s) == s,
    decreases s.len(),
{
    if s.len() > 0 {
        assert(s.skip(0) =~= s);
        assert(env_placeholder(s.skip(0)) is None);
        let rest = s.skip(1);
        assert forall|i: int| 0 <= i < rest.len() implies (#[trigger] env_placeholder(
            rest.skip(i),
        )) is None by {
            assert(rest.skip(i) =~= s.skip(i + 1));
        }
        lemma_expand_env_plain(env, vars, rest);
        assert(seq![s[0]] + rest =~= s);
    }
}

/// Substitution leaves a text that holds no placeholder of either form as
/// it is, so that substituting twice gives what substituting once gives.
pub proof fn lemma_substitute_plain(env: Seq<Entry>, vars: Seq<Entry>, s: Seq<char>)
    requires
        !has_var_placeholder(s),
        !has_env_placeholder(s),
    ensures
        substitute(env, vars, s) == s,
        substitute(env, vars, substitute(env, vars, s)) == substitute(env, vars, s),
{
    lemma_expand_vars_plain(vars, s);
    lemma_expand_env_plain(env, vars, s);
}

proof fn lemma_var_ref_parses(name: Seq<char>)
    requires
        is_name(name),
    ensures
        var_placeholder(var_ref(name)) == Some(name),
        var_ref(name).len() == name.len() + 4,
{
    let s = var_ref(name);
    let close = seq!['}', '}'];
    assert(s.skip(2) =~= name + close);
    assert(!word_char('}'));
    assert(close[0] == '}');
    lemma_word_run(name, close);
    assert(s[0] == '{' && s[1] == '{');
    let n = name.len() as int;
    assert(s[2 + n] == '}');
    assert(s[3 + n] == '}');
    assert(s.subrange(2, 2 + n) =~= name);
}

/// `{{name}}` on its own stands for the value bound to `name`, where that
/// value holds no `${NAME}` placeholder for the second pass to expand.
pub proof fn lemma_bound_variable(
    env: Seq<Entry>,
    vars: Seq<Entry>,
    name: Seq<char>,
    value: Seq<char>,
)
    requires
        is_name(name),
        lookup(vars, name) == Some(value),
        !has_env_placeholder(value),
    ensures
        substitute(env, vars, var_ref(name)) == value,
{
    let s = var_ref(name);
    lemma_var_ref_parses(name);
    let tail = s.skip(name.len() + 4 as int);
    assert(tail =~= Seq::<char>::empty());
    assert(expand_vars(vars, tail) == tail);
    assert(value + tail =~= value);
    assert(expand_vars(vars, s) == value);
    lemma_expand_env_plain(env, vars, value);
}

/// `{{name}}` on its own stays as it is where `name` is unbound.
pub proof fn lemma_unbound_variable(env: Seq<Entry>, vars: Seq<Entry>, name: Seq<char>)
    requires
        is_name(name),
        lookup(vars, name) is None,
    ensures
        substitute(env, vars, var_ref(name)) == var_ref(name),
{
    let s = var_ref(name);
    lemma_var_ref_parses(name);
    let tail = s.skip(name.len() + 4 as int);
    assert(tail =~= Seq::<char>::empty());
    assert(expand_vars(vars, tail) == tail);
    assert(s.take(name.len() + 4 as int) =~= s);
    assert(s + tail =~= s);
    assert(expand_vars(vars, s) == s);
    assert forall|i: int| 0 <= i < s.len() implies (#[trigger] env_placeholder(s.skip(i)))
        is None by {
        assert(s.skip(i)[0] == s[i]);
        assert(!word_char('$'));
        if 2 <= i < 2 + name.len() {
            assert(s[i] == name[i - 2]);
        }
    }
    lemma_expand_env_plain(env, vars, s);
}

proof fn lemma_single_brace_no_var(s: Seq<char>)
    requires
        forall|i: int| 0 <= i < s.len() - 1 ==> (#[trigger] s[i]) != '}',
    ensures
        !has_var_placeholder(s),
{
    assert forall|i: int| 0 <= i < s.len() implies (#[trigger] var_placeholder(s.skip(i)))
        is None by {
        let t = s.skip(i);
        if var_placeholder(t) is Some {
            let n = word_run(t.skip(2)) as int;
            assert(t[2 + n] == s[i + 2 + n]);
        }
    }
}

/// `${name:default}` on its own stands for the value of `name` in the
/// environment whatever the default is; else for the value bound to `name`
/// in the context; else for the default.
pub proof fn lemma_env_placeholder_with_default(
    env: Seq<Entry>,
    vars: Seq<Entry>,
    name: Seq<char>,
    default: Seq<char>,
)
    requires
        is_env_name(name),
        is_default(default),
    ensures
        substitute(env, vars, env_ref_with_default(name, default)) == resolve_env(
            env,
            vars,
            name,
            default,
        ),
        lookup(env, name) is Some ==> substitute(env, vars, env_ref_with_default(name, default))
            == lookup(env, name)->0,
        lookup(env, name) is None && lookup(vars, name) is Some ==> substitute(
            env,
            vars,
            env_ref_with_default(name, default),
        ) == lookup(vars, name)->0,
        lookup(env, name) is None && lookup(vars, name) is None ==> substitute(
            env,
            vars,
            env_ref_with_default(name, default),
        ) == default,
{
    let s = env_ref_with_default(name, default);
    let n = name.len() as int;
    let d = default.len() as int;
    assert(s.len() == n + d + 4);
    assert forall|i: int| 0 <= i < s.len() - 1 implies (#[trigger] s[i]) != '}' by {
        if 2 <= i < 2 + n {
            assert(s[i] == name[i - 2]);
        } else if 3 + n <= i < 3 + n + d {
            assert(s[i] == default[i - 3 - n]);
        }
    }
    lemma_single_brace_no_var(s);
    lemma_expand_vars_plain(vars, s);
    let after_name = seq![':'] + default + seq!['}'];
    assert(s.skip(2) =~= name + after_name);
    assert(after_name[0] == ':');
    lemma_name_run(name, after_name);
    assert(s[2 + n] == ':');
    assert(s.skip(3 + n) =~= default + seq!['}']);
    assert(seq!['}'][0] == '}');
    lemma_default_run(default, seq!['}']);
    assert(s.subrange(2, 2 + n) =~= name);
    assert(s.subrange(3 + n, 3 + n + d) =~= default);
    assert(s[0] == '$' && s[1] == '{');
    let tail = s.skip(n + d + 4);
    assert(tail =~= Seq::<char>::empty());
    assert(expand_env(env, vars, tail) == tail);
    let value = resolve_env(env, vars, name, default);
    assert(value + tail =~= value);
    assert(env_placeholder(s) is Some);
    assert(expand_env(env, vars, s) == value);
}

/// `${name}` on its own stands for the value of `name` in the environment;
/// else for the value bound to `name` in the context; else for the empty
/// text.
pub proof fn lemma_env_placeholder(env: Seq<Entry>, vars: Seq<Entry>, name: Seq<char>)
    requires
        is_env_name(name),
    ensures
        substitute(env, vars, env_ref(name)) == resolve_env(
            env,
            vars,
            name,
            Seq::<char>::empty(),
        ),
{
    let s = env_ref(name);
    let n = name.len() as int;
    assert(s.len() == n + 3);
    assert forall|i: int| 0 <= i < s.len() - 1 implies (#[trigger] s[i]) != '}' by {
        if 2 <= i < 2 + n {
            assert(s[i] == name[i - 2]);
        }
    }
    lemma_single_brace_no_var(s);
    lemma_expand_vars_plain(vars, s);
    assert(s.skip(2) =~= name + seq!['}']);
    assert(seq!['}'][0] == '}');
    lemma_name_run(name, seq!['}']);
    assert(s[2 + n] == '}');
    assert(s.subrange(2, 2 + n) =~= name);
    assert(s[0] == '$' && s[1] == '{');
    let tail = s.skip(n + 3);
    assert(tail =~= Seq::<char>::empty());
    assert(expand_env(env, vars, tail) == tail);
    let value = resolve_env(env, vars, name, Seq::<char>::empty());
    assert(value + tail =~= value);
    assert(env_placeholder(s) is Some);
    assert(expand_env(env, vars, s) == value);
}

} // verus!
