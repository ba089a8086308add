use anna_rs::expr::{eval_when, split_outside_quotes, subst, try_eval_when};
use anna_rs::strmap::StrMap;

fn map(items: &[(&str, &str)]) -> StrMap<String> {
    let mut out = StrMap::new();
    for (k, v) in items {
        out.insert(k.to_string(), v.to_string());
    }
    out
}

fn flags(items: &[(&str, bool)]) -> StrMap<bool> {
    let mut out = StrMap::new();
    for (k, v) in items {
        out.insert(k.to_string(), *v);
    }
    out
}

#[test]
fn subst_uses_longest_key_first() {
    let vars = map(&[("DC", "x"), ("DC_NAME", "prod")]);
    let out = subst("env=$DC_NAME.$DC", &vars, &map(&[]));
    assert_eq!(out, "env=prod.x");
}

#[test]
fn eval_when_handles_and_or_contains() {
    let outputs = map(&[("check", "PASS"), ("a", "ok")]);
    let success = flags(&[("build", true)]);

    assert!(eval_when(Some("$check contains 'PASS'"), &outputs, &success));
    assert!(eval_when(
        Some("$a == 'ok' && $build.success == true"),
        &outputs,
        &success
    ));
    assert!(eval_when(
        Some("$missing == '' || $check == 'PASS'"),
        &outputs,
        &success
    ));
}

#[test]
fn split_respects_quotes() {
    let parts = split_outside_quotes("a == 'x || y' || b == 'z'", "||")
        .expect("split should produce parts");
    assert_eq!(parts.len(), 2);
    assert_eq!(parts[0], "a == 'x || y'");
    assert_eq!(parts[1], "b == 'z'");
}

#[test]
fn outputs_stand_over_variables() {
    let vars = map(&[("x", "var"), ("y", "why")]);
    let outputs = map(&[("x", "out")]);
    assert_eq!(subst("$x $y", &vars, &outputs), "out why");
}

#[test]
fn text_without_references_stays() {
    let vars = map(&[("x", "1")]);
    assert_eq!(subst("nothing here", &vars, &map(&[])), "nothing here");
    assert_eq!(subst("", &vars, &map(&[])), "");
}

#[test]
fn a_text_without_the_operator_is_not_split() {
    assert!(split_outside_quotes("a == 'b && c'", "&&").is_none());
    assert!(split_outside_quotes("a == 'b'", "||").is_none());
}

#[test]
fn conditions_compare_and_negate() {
    let outputs = map(&[("check", "two FAILs")]);
    let success = flags(&[("build", false)]);
    assert!(eval_when(None, &outputs, &success));
    assert!(eval_when(Some("$check != ''"), &outputs, &success));
    assert!(!eval_when(Some("$check == ''"), &outputs, &success));
    assert!(eval_when(Some("$missing == ''"), &outputs, &success));
    assert!(eval_when(Some("$build.success == false"), &outputs, &success));
    assert!(!eval_when(Some("$check contains 'PASS'"), &outputs, &success));
    assert!(!eval_when(
        Some("$check != '' && $missing != ''"),
        &outputs,
        &success
    ));
}

#[test]
fn a_lone_quote_has_no_value() {
    assert_eq!(try_eval_when(Some("a == '"), &map(&[]), &flags(&[])), None);
    assert_eq!(try_eval_when(Some("a == 'a'"), &map(&[]), &flags(&[])), Some(true));
}

#[test]
fn outputs_are_values_whatever_they_hold() {
    let none = flags(&[]);
    let check = |cond: &str, value: &str| eval_when(Some(cond), &map(&[("a", value), ("b", "x")]), &none);
    for value in ["x contains y", "p == q", "p != q", "''", "\"\"", "'", "$b", "a || b", "a && b"] {
        assert!(check("$a != ''", value), "{:?} is not empty", value);
        assert!(!check("$a == ''", value), "{:?} is not empty", value);
    }
    assert!(check("$a contains 'contains'", "x contains y"));
    assert!(check("$a == 'x contains y'", "x contains y"));
    assert!(check("$a != 'p == q'", "p"));
    assert!(check("$a == 'say \"hi\"'", "say \"hi\""));
    assert!(!check("$a contains 'PASS'", ""));
    assert!(!check("$missing contains 'PASS'", "x"));
    assert!(check("$a=='ok'", " ok "));
}

#[test]
fn other_conditions_are_filled_in_first() {
    let none = flags(&[]);
    let check = |cond: &str, value: &str| eval_when(Some(cond), &map(&[("a", value), ("b", "x")]), &none);
    assert!(check("$a", "text"));
    assert!(!check("$a", "false"));
    assert!(!check("$a", "p == q"));
    assert!(check("$a", "p == p"));
    assert!(check("$a == $b", "x"));
    assert!(check("$a == $b", "'x'"));
    assert!(check("$a == '$b'", "x"));
    assert!(!check("$$a", "text"));
    assert!(check("$a == ok", " ok "));
    assert!(check("$a == \"ok\"", "ok"));
    assert!(check("'ok' == $a", "ok"));
    assert!(check("it's == $a", "it's"));
    assert!(check("\"it's\" == $a", "it's"));
    assert_eq!(try_eval_when(Some("$a"), &map(&[("a", "'")]), &none), None);
    assert!(!check("$missing", "x"));
}

#[test]
fn markers_name_the_longest_stage() {
    let outputs = map(&[("a", "1"), ("ab", "2"), ("a.success", "no")]);
    let success = flags(&[("a", true)]);
    assert!(eval_when(Some("$ab == 2"), &outputs, &success));
    assert!(eval_when(Some("$a.success == true"), &outputs, &success));
    assert!(eval_when(Some("$ac == 1c"), &outputs, &success));
    assert!(eval_when(Some("$x.y-z == -z"), &outputs, &success));
}

#[test]
fn connectives_have_the_value_of_their_parts() {
    let outputs = map(&[("t", "yes"), ("f", "")]);
    let none = flags(&[]);
    let parts = ["$t", "$f", "$t == 'a || b'", "$f == '' && $t", "", "$t || $f"];
    for a in parts {
        for b in parts {
            let value = |cond: &str| eval_when(Some(cond), &outputs, &none);
            assert_eq!(value(&format!("{} || {}", a, b)), value(a) || value(b), "{} || {}", a, b);
            if !a.contains("$t ||") && !b.contains("$t ||") {
                assert_eq!(
                    value(&format!("{} && {}", a, b)),
                    value(a) && value(b),
                    "{} && {}",
                    a,
                    b
                );
            }
        }
    }
}

#[test]
fn joined_parts_split_into_the_same_parts() {
    let parts: Vec<String> = ["a", "", "b c", ""].iter().map(|p| p.to_string()).collect();
    assert_eq!(split_outside_quotes(&parts.join("||"), "||"), Some(parts));
    assert_eq!(split_outside_quotes("a", "||"), None);
    assert_eq!(split_outside_quotes("a", ""), None);
}
