//! Template expansion behaviour.

use wasmer_borealis::config::TemplatedString;
use wasmer_borealis::template::{expand_str, VarTable};

fn table(pairs: &[(&str, &str)]) -> VarTable {
    let mut t = VarTable::new();
    for (k, v) in pairs {
        t.push(k.to_string(), v.to_string());
    }
    t
}

#[test]
fn braced_reference_is_substituted() {
    let vars = table(&[("NAME", "hello")]);
    let t = TemplatedString::new("Hello ${NAME}".to_string());
    assert_eq!(t.resolve(None, &vars), "Hello hello");
}

#[test]
fn bare_reference_is_substituted() {
    let vars = table(&[("A", "one"), ("B", "two")]);
    assert_eq!(expand_str("begin/$A/${B}s/end", None, &vars), "begin/one/twos/end");
}

#[test]
fn missing_variable_expands_to_empty() {
    let vars = table(&[]);
    assert_eq!(expand_str("x${GONE}y", None, &vars), "xy");
    assert_eq!(expand_str("x$GONE-y", None, &vars), "x-y");
}

#[test]
fn literal_dollar_is_kept() {
    let vars = table(&[("A", "a")]);
    assert_eq!(expand_str("cost: $ 5", None, &vars), "cost: $ 5");
    assert_eq!(expand_str("trailing $", None, &vars), "trailing $");
}

#[test]
fn unclosed_brace_is_literal() {
    let vars = table(&[("A", "a")]);
    assert_eq!(expand_str("x${A y", None, &vars), "x${A y");
}

#[test]
fn tilde_expands_to_home() {
    let vars = table(&[]);
    assert_eq!(expand_str("~/dir", Some("/home/user"), &vars), "/home/user/dir");
    assert_eq!(expand_str("~", Some("/home/user"), &vars), "/home/user");
    // no home available: the tilde stays
    assert_eq!(expand_str("~/dir", None, &vars), "~/dir");
    // a tilde not followed by a separator is not expanded
    assert_eq!(expand_str("~user/dir", Some("/home/user"), &vars), "~user/dir");
    // a tilde in the middle is not expanded
    assert_eq!(expand_str("a/~/b", Some("/home/user"), &vars), "a/~/b");
}

#[test]
fn earlier_bindings_shadow_later_ones() {
    let vars = table(&[("X", "first"), ("X", "second")]);
    assert_eq!(expand_str("${X}", None, &vars), "first");
}

#[test]
fn expansion_is_idempotent_on_literal_values() {
    let vars = table(&[("GREETING", "Hello"), ("WHO", "world")]);
    let once = expand_str("${GREETING}, ${WHO}!", None, &vars);
    let twice = expand_str(&once, None, &vars);
    assert_eq!(once, "Hello, world!");
    assert_eq!(once, twice);
}

#[test]
fn matches_shellexpand_on_known_variables() {
    let cases = [
        "begin/$A/${B}s/end",
        "~/some/dir",
        "no references at all",
        "${A}${B}",
        "$A$B",
        "~",
    ];
    let get_env = |name: &str| -> Option<String> {
        match name {
            "A" => Some("a value".to_string()),
            "B" => Some("b value".to_string()),
            _ => None,
        }
    };
    let home = || -> Option<String> { Some("/home/user".to_string()) };
    let vars = table(&[("A", "a value"), ("B", "b value")]);
    for case in cases {
        let theirs = shellexpand::full_with_context_no_errors(case, home, |v| get_env(v));
        let ours = expand_str(case, Some("/home/user"), &vars);
        assert_eq!(ours, theirs.as_ref(), "case: {case}");
    }
}
