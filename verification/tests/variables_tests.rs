use rivet::bindings::Bindings;
use rivet::runner::variables::VariableContext;

fn table(pairs: &[(&str, &str)]) -> Bindings {
    let mut table = Bindings::new();
    for (key, value) in pairs {
        table.insert(key.to_string(), value.to_string());
    }
    table
}

#[test]
fn test_variable_substitution() {
    let mut ctx = VariableContext::new();
    ctx.set("baseUrl".to_string(), "https://api.example.com".to_string());
    ctx.set("userId".to_string(), "123".to_string());

    let result = ctx.substitute_variables("{{baseUrl}}/users/{{userId}}");
    assert_eq!(result, "https://api.example.com/users/123");
}

#[test]
fn test_env_variable_substitution() {
    let ctx = VariableContext::new().with_environment(table(&[("TEST_VAR", "test_value")]));

    let result = ctx.substitute_variables("${TEST_VAR:default}");
    assert_eq!(result, "test_value");

    let result = ctx.substitute_variables("${NONEXISTENT:default_val}");
    assert_eq!(result, "default_val");
}

#[test]
fn plain_text_is_left_alone() {
    let mut ctx = VariableContext::new().with_environment(table(&[("HOME", "/root")]));
    ctx.set("a".to_string(), "1".to_string());
    for text in [
        "",
        "no placeholders here",
        "{single} $dollar {{ }} {{}} ${} ${:x} {{a b}} {{a}",
        "{ {a} } $ {HOME}",
        "100% {{-}} ${",
    ] {
        let once = ctx.substitute_variables(text);
        assert_eq!(once, text);
        assert_eq!(ctx.substitute_variables(&once), once);
    }
}

#[test]
fn bound_and_unbound_names() {
    let mut ctx = VariableContext::new();
    ctx.set("name".to_string(), "value".to_string());
    ctx.set("under_score9".to_string(), "x y".to_string());
    assert_eq!(ctx.substitute_variables("{{name}}"), "value");
    assert_eq!(ctx.substitute_variables("{{under_score9}}"), "x y");
    assert_eq!(ctx.substitute_variables("{{missing}}"), "{{missing}}");
    assert_eq!(
        ctx.substitute_variables("a{{missing}}b{{name}}c"),
        "a{{missing}}bvaluec"
    );
    assert_eq!(ctx.substitute_variables("{{{name}}}"), "{value}");
    assert_eq!(ctx.substitute_variables("{{name}}{{name}}"), "valuevalue");
}

#[test]
fn names_follow_the_word_class_beyond_ascii() {
    let mut ctx = VariableContext::new();
    ctx.set("caf\u{e9}".to_string(), "coffee".to_string());
    ctx.set("\u{540d}\u{524d}".to_string(), "name".to_string());
    ctx.set("a\u{2014}b".to_string(), "dash".to_string());
    ctx.set("a\u{a0}b".to_string(), "space".to_string());
    assert_eq!(ctx.substitute_variables("{{caf\u{e9}}}"), "coffee");
    assert_eq!(ctx.substitute_variables("{{\u{540d}\u{524d}}}"), "name");
    assert_eq!(ctx.substitute_variables("{{a\u{2014}b}}"), "{{a\u{2014}b}}");
    assert_eq!(ctx.substitute_variables("{{a\u{a0}b}}"), "{{a\u{a0}b}}");
}

#[test]
fn environment_placeholder_order() {
    let mut ctx = VariableContext::new().with_environment(table(&[("X", "from-env")]));
    ctx.set("X".to_string(), "from-vars".to_string());
    ctx.set("Y".to_string(), "bound".to_string());
    assert_eq!(ctx.substitute_variables("${X:d}"), "from-env");
    assert_eq!(ctx.substitute_variables("${X:other}"), "from-env");
    assert_eq!(ctx.substitute_variables("${X}"), "from-env");
    assert_eq!(ctx.substitute_variables("${Y:d}"), "bound");
    assert_eq!(ctx.substitute_variables("${Z:d}"), "d");
    assert_eq!(ctx.substitute_variables("${Z}"), "");
    assert_eq!(ctx.substitute_variables("${Z:}"), "");
    assert_eq!(ctx.substitute_variables("${Z:a:b}"), "a:b");
    assert_eq!(ctx.substitute_variables("${Z:{x}"), "{x");
    assert_eq!(ctx.substitute_variables("${ Z :d}"), "d");
    assert_eq!(ctx.substitute_variables("<${Z:1}|${Y}>"), "<1|bound>");
    assert_eq!(ctx.substitute_variables("${Z:d"), "${Z:d");
    assert_eq!(ctx.substitute_variables("${:d}"), "${:d}");
}

#[test]
fn variable_pass_comes_first() {
    let mut ctx = VariableContext::new().with_environment(table(&[("HOST", "example.org")]));
    ctx.set("url".to_string(), "https://${HOST:localhost}/".to_string());
    ctx.set("inner".to_string(), "{{url}}".to_string());
    assert_eq!(ctx.substitute_variables("{{url}}"), "https://example.org/");
    // The value of an environment placeholder is not expanded again.
    let ctx2 = VariableContext::new().with_environment(table(&[("V", "{{url}}")]));
    assert_eq!(ctx2.substitute_variables("${V}"), "{{url}}");
    // Nor is the value of a variable scanned for variables.
    assert_eq!(ctx.substitute_variables("{{inner}}"), "{{url}}");
    // A default may hold a variable: the first pass expands it, and the
    // default then ends at the first closing brace.
    assert_eq!(
        ctx.substitute_variables("${NOPE:{{url}}}"),
        "https://${HOST:localhost/}"
    );
    assert_eq!(ctx.substitute_variables("${NOPE:{{inner}}}"), "{{url}}");
}

#[test]
fn config_vars_chain_in_order() {
    let vars = table(&[
        ("base", "https://api.example.com"),
        ("users", "{{base}}/users"),
        ("first", "{{users}}/1"),
        ("early", "{{late}}"),
        ("late", "x"),
    ]);
    let ctx = VariableContext::new().with_config_vars(Some(&vars));
    assert_eq!(ctx.vars.get("users").unwrap(), "https://api.example.com/users");
    assert_eq!(ctx.vars.get("first").unwrap(), "https://api.example.com/users/1");
    assert_eq!(ctx.vars.get("early").unwrap(), "{{late}}");
    let same = VariableContext::new().with_config_vars(None);
    assert!(same.vars.is_empty());
}

#[test]
fn builders_and_clones_are_independent() {
    let env = table(&[("A", "1"), ("B", "2")]);
    let base = VariableContext::new().with_environment(env).with_env_vars();
    assert_eq!(base.vars.len(), 2);
    assert_eq!(base.substitute_variables("{{A}}{{B}}"), "12");
    let row = table(&[("B", "row"), ("C", "3")]);
    let derived = base.clone().with_data_row(&row);
    assert_eq!(derived.substitute_variables("{{A}}{{B}}{{C}}"), "1row3");
    assert_eq!(base.substitute_variables("{{A}}{{B}}{{C}}"), "12{{C}}");
    let mut other = base.clone();
    other.set_variable("A".to_string(), "changed".to_string());
    assert_eq!(other.vars.get("A").unwrap(), "changed");
    assert_eq!(base.vars.get("A").unwrap(), "1");
    assert_eq!(other.vars.len(), 2);
}

#[test]
fn bindings_keep_first_place_and_last_value() {
    let mut t = Bindings::new();
    assert!(t.is_empty());
    t.insert("k".to_string(), "1".to_string());
    t.insert("j".to_string(), "2".to_string());
    t.insert("k".to_string(), "3".to_string());
    assert_eq!(t.len(), 2);
    assert_eq!(t.key_at(0), "k");
    assert_eq!(t.value_at(0), "3");
    assert_eq!(t.get("j"), Some(&"2".to_string()));
    assert_eq!(t.get("missing"), None);
    assert!(t.contains_key("k"));
    assert!(!t.contains_key("K"));
}
