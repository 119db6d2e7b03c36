use jsonp_runtime::matcher::{compile, evaluate, render, ConditionMap, Matcher};

fn map_of(pairs: &[(&str, bool)]) -> ConditionMap {
    let mut m = ConditionMap::new();
    for (id, v) in pairs {
        m.insert(id, *v);
    }
    m
}

#[test]
fn all_true_map_compiles_to_constant_true() {
    let m = map_of(&[("a", true), ("b", true), ("c", true)]);
    let c = compile(&m);
    assert!(matches!(c, Matcher::AlwaysTrue));
    assert_eq!(render(&c, "chunkId"), "true");
}

#[test]
fn all_false_map_compiles_to_constant_false() {
    let m = map_of(&[("a", false), ("b", false)]);
    let c = compile(&m);
    assert!(matches!(c, Matcher::AlwaysFalse));
    assert_eq!(render(&c, "chunkId"), "false");
}

#[test]
fn empty_map_compiles_to_constant_false() {
    let m = ConditionMap::new();
    let c = compile(&m);
    assert!(matches!(c, Matcher::AlwaysFalse));
}

#[test]
fn minority_false_group_is_enumerated_by_inequality() {
    let m = map_of(&[("A", true), ("B", true), ("C", false)]);
    let c = compile(&m);
    match &c {
        Matcher::Expr(e) => {
            assert!(!e.positive);
            assert!(!e.membership);
            assert_eq!(e.ids.len(), 1);
            assert_eq!(e.ids[0], "C");
        },
        _ => panic!("expected an expression matcher"),
    }
    assert_eq!(render(&c, "chunkId"), "(chunkId !== \"C\")");
}

#[test]
fn minority_true_group_is_enumerated_by_equality() {
    let m = map_of(&[("x", true), ("y", false), ("z", false)]);
    let c = compile(&m);
    match &c {
        Matcher::Expr(e) => {
            assert!(e.positive);
            assert_eq!(e.ids, vec!["x".to_string()]);
        },
        _ => panic!("expected an expression matcher"),
    }
    assert_eq!(render(&c, "chunkId"), "(chunkId === \"x\")");
}

#[test]
fn tie_prefers_the_true_group() {
    let m = map_of(&[("p", true), ("q", false)]);
    let c = compile(&m);
    match &c {
        Matcher::Expr(e) => {
            assert!(e.positive);
            assert_eq!(e.ids, vec!["p".to_string()]);
        },
        _ => panic!("expected an expression matcher"),
    }
}

#[test]
fn two_true_ids_render_as_an_or_chain() {
    let m = map_of(&[("a", true), ("b", true), ("c", false), ("d", false), ("e", false)]);
    let c = compile(&m);
    assert_eq!(render(&c, "chunkId"), "(chunkId === \"a\" || chunkId === \"b\")");
}

#[test]
fn large_group_renders_as_membership_test() {
    let m = map_of(&[
        ("a", true),
        ("b", true),
        ("c", true),
        ("d", true),
        ("e", false),
        ("f", false),
        ("g", false),
        ("h", false),
        ("i", false),
    ]);
    let c = compile(&m);
    match &c {
        Matcher::Expr(e) => {
            assert!(e.positive);
            assert!(e.membership);
        },
        _ => panic!("expected an expression matcher"),
    }
    assert_eq!(
        render(&c, "chunkId"),
        "([\"a\",\"b\",\"c\",\"d\"].includes(chunkId))"
    );
}

#[test]
fn large_false_group_renders_as_negated_membership_test() {
    let m = map_of(&[
        ("a", true),
        ("b", true),
        ("c", true),
        ("d", true),
        ("e", true),
        ("f", false),
        ("g", false),
        ("h", false),
        ("i", false),
    ]);
    let c = compile(&m);
    assert_eq!(
        render(&c, "chunkId"),
        "(![\"f\",\"g\",\"h\",\"i\"].includes(chunkId))"
    );
}

#[test]
fn compiled_matcher_reproduces_every_recorded_result() {
    let pairs: Vec<(&str, bool)> = vec![
        ("A", true),
        ("B", true),
        ("C", false),
        ("D", true),
        ("E", false),
    ];
    let m = map_of(&pairs);
    let c = compile(&m);
    for (id, v) in &pairs {
        assert_eq!(evaluate(&c, &id.to_string()), *v, "id {id}");
    }
}

#[test]
fn membership_matcher_reproduces_every_recorded_result() {
    let pairs: Vec<(&str, bool)> = vec![
        ("a", true),
        ("b", true),
        ("c", true),
        ("d", true),
        ("e", false),
        ("f", false),
        ("g", false),
        ("h", false),
        ("i", false),
    ];
    let m = map_of(&pairs);
    let c = compile(&m);
    for (id, v) in &pairs {
        assert_eq!(evaluate(&c, &id.to_string()), *v, "id {id}");
    }
}

#[test]
fn quoting_escapes_ids_in_rendered_expressions() {
    let m = map_of(&[("a\"b", false), ("ok", true), ("ok2", true)]);
    let c = compile(&m);
    assert_eq!(render(&c, "chunkId"), "(chunkId !== \"a\\\"b\")");
}

#[test]
fn constant_matchers_decide_every_id() {
    let t = compile(&map_of(&[("a", true)]));
    let f = compile(&map_of(&[("a", false)]));
    assert!(evaluate(&t, &"anything".to_string()));
    assert!(!evaluate(&f, &"anything".to_string()));
}
