use nameit::parser::{Parser, Reader};
use nameit::recommenders::{Variable, VariableKind, VariableScope, VariableValueKind};

fn text(lines: &[&str]) -> Vec<(usize, String)> {
    lines.iter().enumerate().map(|(i, l)| (i, l.to_string())).collect()
}

#[test]
fn var_declaration_yields_one_variable() {
    let variables = Parser::extract(&text(&["var foo = 1"]));
    assert_eq!(variables.len(), 1);
    assert_eq!(variables[0].name, "foo");
    assert_eq!(variables[0].kind, VariableKind::Var);
    assert_eq!(variables[0].scope, VariableScope::Unknown);
    assert_eq!(variables[0].value.value, "1");
    assert_eq!(variables[0].value.kind, VariableValueKind::Compound);
    assert_eq!(variables[0].linum, 0);
}

#[test]
fn var_without_assignment_yields_nothing() {
    assert!(Parser::extract(&text(&["var foo"])).is_empty());
    assert!(Parser::parse_loc(Ok(Box::new(text(&["var foo"])))).unwrap().is_empty());
}

#[test]
fn let_declaration_keeps_its_kind() {
    let variables = Parser::extract(&text(&["let x = 1"]));
    assert_eq!(variables.len(), 1);
    assert_eq!(variables[0].name, "x");
    assert_eq!(variables[0].kind, VariableKind::Let);
}

#[test]
fn const_declaration_keeps_its_kind() {
    let variables = Parser::extract(&text(&["const MAX = 10"]));
    assert_eq!(variables.len(), 1);
    assert_eq!(variables[0].name, "MAX");
    assert_eq!(variables[0].kind, VariableKind::Const);
    assert_eq!(variables[0].value.value, "10");
}

#[test]
fn bare_assignment_is_global() {
    let variables = Parser::extract(&text(&["counter = 12"]));
    assert_eq!(variables.len(), 1);
    assert_eq!(variables[0].name, "counter");
    assert_eq!(variables[0].kind, VariableKind::Global);
    assert_eq!(variables[0].value.value, "12");
}

#[test]
fn first_seen_kind_wins_across_lines() {
    let variables = Parser::extract(&text(&["let x = 1", "x = 2"]));
    assert_eq!(variables.len(), 1);
    assert_eq!(variables[0].name, "x");
    assert_eq!(variables[0].kind, VariableKind::Let);
    assert_eq!(variables[0].value.value, "1");
    assert_eq!(variables[0].linum, 0);
}

#[test]
fn earlier_global_blocks_later_declaration() {
    let variables = Parser::extract(&text(&["total = 2", "let total = 1"]));
    assert_eq!(variables.len(), 1);
    assert_eq!(variables[0].kind, VariableKind::Global);
    assert_eq!(variables[0].linum, 0);
}

#[test]
fn short_lines_are_passed_over() {
    assert!(Parser::extract(&text(&["", "a", "ab", "a=1", "x=y"])).is_empty());
    let variables = Parser::extract(&text(&["a=12"]));
    assert_eq!(variables.len(), 1);
    assert_eq!(variables[0].name, "a");
    assert_eq!(variables[0].value.value, "12");
}

#[test]
fn a_line_may_hold_several_declarations() {
    let variables = Parser::extract(&text(&["let alpha = 1; let beta = 2"]));
    assert_eq!(variables.len(), 2);
    assert_eq!(variables[0].name, "alpha");
    assert_eq!(variables[0].value.value, "1;");
    assert_eq!(variables[1].name, "beta");
    assert_eq!(variables[1].value.value, "2");
    assert_eq!(variables[1].kind, VariableKind::Let);
}

#[test]
fn patterns_are_tried_in_their_order() {
    let variables = Parser::extract(&text(&["other = 3; const LIMIT = 4; var thing = 5; let item = 6"]));
    let seen: Vec<(&str, VariableKind)> =
        variables.iter().map(|v| (v.name.as_str(), v.kind)).collect();
    assert_eq!(
        seen,
        vec![
            ("item", VariableKind::Let),
            ("thing", VariableKind::Var),
            ("LIMIT", VariableKind::Const),
            ("other", VariableKind::Global),
        ]
    );
}

#[test]
fn line_numbers_are_carried() {
    let lines = vec![(7, "let first = 1".to_string()), (40, "var second = 2".to_string())];
    let variables = Parser::extract(&lines);
    assert_eq!(variables.len(), 2);
    assert_eq!(variables[0].linum, 7);
    assert_eq!(variables[1].linum, 40);
}

#[test]
fn a_call_makes_a_value_dynamic() {
    let variables = Parser::extract(&text(&["let result = compute(1)", "let plain = 17"]));
    assert_eq!(variables.len(), 2);
    assert_eq!(variables[0].value.value, "compute(1)");
    assert_eq!(variables[0].value.kind, VariableValueKind::Dynamic);
    assert_eq!(variables[1].value.kind, VariableValueKind::Compound);
}

#[test]
fn new_classifies_the_value() {
    let dynamic = Variable::new("a", VariableKind::Let, "f()", 3);
    assert_eq!(dynamic.name, "a");
    assert_eq!(dynamic.kind, VariableKind::Let);
    assert_eq!(dynamic.scope, VariableScope::Unknown);
    assert_eq!(dynamic.value.value, "f()");
    assert_eq!(dynamic.value.kind, VariableValueKind::Dynamic);
    assert_eq!(dynamic.linum, 3);
    assert_eq!(Variable::new("a", VariableKind::Let, ")(", 0).value.kind, VariableValueKind::Compound);
    assert_eq!(Variable::new("a", VariableKind::Let, "(", 0).value.kind, VariableValueKind::Compound);
    assert_eq!(Variable::new("a", VariableKind::Let, "", 0).value.kind, VariableValueKind::Compound);
}

#[test]
fn value_kind_follows_the_match() {
    assert_eq!(VariableValueKind::from_match(Some(true)), VariableValueKind::Dynamic);
    assert_eq!(VariableValueKind::from_match(Some(false)), VariableValueKind::Compound);
    assert_eq!(VariableValueKind::from_match(None), VariableValueKind::Compound);
}

#[test]
fn equality_looks_at_name_and_scope_only() {
    let a = Variable::new("x", VariableKind::Let, "1", 0);
    let b = Variable::new("x", VariableKind::Const, "call()", 9);
    let c = Variable::new("y", VariableKind::Let, "1", 0);
    assert!(a == b);
    assert!(a != c);
}

#[test]
fn is_known_goes_by_name() {
    let variables = vec![
        Variable::new("x", VariableKind::Let, "1", 0),
        Variable::new("y", VariableKind::Var, "2", 1),
    ];
    assert!(Parser::is_known(&variables, &Variable::new("y", VariableKind::Global, "3", 2)));
    assert!(!Parser::is_known(&variables, &Variable::new("z", VariableKind::Let, "1", 0)));
    assert!(!Parser::is_known(&Vec::new(), &Variable::new("x", VariableKind::Let, "1", 0)));
}

#[test]
fn record_appends_unknown_names_only() {
    let mut variables = vec![Variable::new("x", VariableKind::Let, "1", 0)];
    let found = vec![
        ("y".to_string(), "2".to_string()),
        ("x".to_string(), "3".to_string()),
        ("y".to_string(), "4".to_string()),
        ("z".to_string(), "go()".to_string()),
    ];
    Parser::record(&mut variables, VariableKind::Var, &found, 5);
    let seen: Vec<(&str, VariableKind, &str, usize)> = variables
        .iter()
        .map(|v| (v.name.as_str(), v.kind, v.value.value.as_str(), v.linum))
        .collect();
    assert_eq!(
        seen,
        vec![
            ("x", VariableKind::Let, "1", 0),
            ("y", VariableKind::Var, "2", 5),
            ("z", VariableKind::Var, "go()", 5),
        ]
    );
    assert_eq!(variables[2].value.kind, VariableValueKind::Dynamic);
}

#[test]
fn scan_uses_the_pattern_of_the_kind() {
    let mut variables = Vec::new();
    Parser::scan(&mut variables, VariableKind::Var, 0, "let a = 1; var b = 2");
    assert_eq!(variables.len(), 1);
    assert_eq!(variables[0].name, "b");
    assert_eq!(variables[0].kind, VariableKind::Var);
    Parser::scan(&mut variables, VariableKind::Global, 0, "let a = 1; var b = 2");
    assert_eq!(variables.len(), 2);
    assert_eq!(variables[1].name, "a");
    assert_eq!(variables[1].kind, VariableKind::Global);
}

#[test]
fn extract_line_leaves_a_short_line_alone() {
    let mut variables = vec![Variable::new("x", VariableKind::Let, "1", 0)];
    Parser::extract_line(&mut variables, 1, "y=2");
    assert_eq!(variables.len(), 1);
    Parser::extract_line(&mut variables, 2, "y=22");
    assert_eq!(variables.len(), 2);
    assert_eq!(variables[1].name, "y");
    assert_eq!(variables[1].linum, 2);
}

#[test]
fn patterns_by_kind() {
    assert_eq!(Parser::pattern(VariableKind::Let), r"let +(\w+) *?={1} *?([[:punct:][:alnum:]]+)\.*?");
    assert_eq!(Parser::pattern(VariableKind::Var), r"var +(\w+) *?={1} *?([[:punct:][:alnum:]]+)\.*?");
    assert_eq!(Parser::pattern(VariableKind::Const), r"const +(\w+) *?={1} *?([[:punct:][:alnum:]]+)\.*?");
    assert_eq!(Parser::pattern(VariableKind::Global), r"(\w+) *?={1} *?([[:punct:][:alnum:]]+)\.*?");
}

#[test]
fn lines_are_numbered_from_zero() {
    let pairs = Reader::number_lines(vec!["a".to_string(), "".to_string(), "c".to_string()]);
    assert_eq!(
        pairs,
        vec![(0, "a".to_string()), (1, "".to_string()), (2, "c".to_string())]
    );
    assert!(Reader::number_lines(Vec::new()).is_empty());
}

#[test]
fn no_name_is_extracted_twice() {
    let lines = text(&[
        "let value = 1",
        "var value = 2",
        "const value = 3",
        "value = 4; other = value",
        "let other = 5",
    ]);
    let variables = Parser::extract(&lines);
    for i in 0..variables.len() {
        for j in (i + 1)..variables.len() {
            assert!(variables[i] != variables[j]);
        }
    }
    assert_eq!(variables.len(), 2);
    assert_eq!(variables[0].kind, VariableKind::Let);
    assert_eq!(variables[1].name, "other");
    assert_eq!(variables[1].kind, VariableKind::Global);
}
