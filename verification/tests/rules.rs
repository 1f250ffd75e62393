use nameit::parser::Parser;
use nameit::recommenders::name_validity::{write_title, NameValidity, Verdict};
use nameit::recommenders::{Recommender, ReportLine, Variable, VariableKind};
use nameit::text::{decimal_text, has_char, line_label_text, same_text};

fn lint(line: &str) -> Vec<ReportLine> {
    *Parser::parse_loc(Ok(Box::new(vec![(0, line.to_string())]))).unwrap()
}

fn only(line: &str) -> ReportLine {
    let mut report = lint(line);
    assert_eq!(report.len(), 1);
    report.remove(0)
}

#[test]
fn var_declaration_is_reported() {
    let line = only("var foo = 1");
    assert_eq!(line.variable_name, "foo");
    assert_eq!(line.title, "Line     0 Variable 'foo' seems odd. Please come up with a better name");
}

#[test]
fn a_failed_read_is_handed_back() {
    let failure = std::io::Error::new(std::io::ErrorKind::NotFound, "no such text");
    let error = Parser::parse_loc(Err(failure)).unwrap_err();
    assert_eq!(error.kind(), std::io::ErrorKind::NotFound);
    assert_eq!(error.to_string(), "no such text");
}

#[test]
fn lint_and_parse_loc_agree() {
    let lines = vec![(0, "let ab = 1".to_string()), (1, "let Foo = bar()".to_string())];
    let report = Parser::lint(&lines);
    assert_eq!(report.len(), 2);
    assert_eq!(*Parser::parse_loc(Ok(Box::new(lines))).unwrap(), report);
}

#[test]
fn counter_name_passes() {
    assert!(lint("let i = 1").is_empty());
    assert!(lint("let j = 1").is_empty());
    assert!(lint("let k = 1").is_empty());
    assert!(lint("let e = 1").is_empty());
}

#[test]
fn short_name_seems_odd() {
    let line = only("let ab = 1");
    assert_eq!(line.title, "Line     0 Variable 'ab' seems odd. Please come up with a better name");
    assert_eq!(line.variable_name, "ab");
}

#[test]
fn capital_start_is_reported_before_length() {
    let line = only("let Foo = 1");
    assert_eq!(
        line.title,
        "Line     0 Variable 'Foo' starts with Capital. Please come up with a better name"
    );
    assert_eq!(line.variable_name, "Foo");
}

#[test]
fn unknown_constant_seems_odd() {
    let line = only("const BAD = 1");
    assert_eq!(line.title, "Line     0 CONSTANT 'BAD' seems odd. Please come up with a better name");
    assert_eq!(line.variable_name, "BAD");
}

#[test]
fn well_formed_constant_outside_the_list_is_still_odd() {
    let line = only("const SCREAMING_SNAKE = 1");
    assert_eq!(
        line.title,
        "Line     0 CONSTANT 'SCREAMING_SNAKE' seems odd. Please come up with a better name"
    );
}

#[test]
fn leading_underscore_is_exempt_from_the_character_rule() {
    let line = only("let _x = 1");
    assert_eq!(line.title, "Line     0 Variable '_x' seems odd. Please come up with a better name");
    assert_eq!(line.variable_name, "_x");
    assert!(lint("let _private_name = 1").is_empty());
}

#[test]
fn underscore_inside_a_name_is_reported() {
    let line = only("let foo_bar = 1");
    assert_eq!(
        line.title,
        "Line     0 Variable 'foo_bar' has terrible char in its name. Please consider renaming it."
    );
    assert_eq!(line.variable_name, "foo_bar");
}

#[test]
fn poor_character_is_reported_before_capital() {
    let line = only("let Foo_bar = 1");
    assert_eq!(
        line.title,
        "Line     0 Variable 'Foo_bar' has terrible char in its name. Please consider renaming it."
    );
}

#[test]
fn known_constant_still_meets_the_capital_rule() {
    let line = only("const MAX = 1");
    assert_eq!(
        line.title,
        "Line     0 Variable 'MAX' starts with Capital. Please come up with a better name"
    );
}

#[test]
fn length_bounds() {
    assert!(lint("let abcde = 1").is_empty());
    assert_eq!(
        only("let abcd = 1").title,
        "Line     0 Variable 'abcd' seems odd. Please come up with a better name"
    );
    assert!(lint("let abcdefghijklmnopqrstuvwxy = 1").is_empty());
    assert_eq!(
        only("let abcdefghijklmnopqrstuvwxyz = 1").title,
        "Line     0 Variable 'abcdefghijklmnopqrstuvwxyz' seems odd. Please come up with a better name"
    );
}

#[test]
fn idiomatic_short_names_pass() {
    for name in [
        "self", "cors", "url", "ajax", "xhr", "id", "elem", "href", "data", "fn", "key", "obj",
        "tag", "body", "list", "dir", "attr", "len", "node", "rhs", "lhs", "win", "min", "max",
        "doc", "ret", "xml",
    ] {
        let line = format!("let {} = 1", name);
        assert!(lint(&line).is_empty());
    }
    assert!(lint("let _ = 1").is_empty());
}

#[test]
fn line_number_is_right_aligned_in_the_title() {
    let report = Parser::lint(&vec![
        (42, "let ab = 1".to_string()),
        (99999, "let cd = 1".to_string()),
        (123456, "let ef = 1".to_string()),
    ]);
    assert_eq!(report.len(), 3);
    assert_eq!(report[0].title, "Line    42 Variable 'ab' seems odd. Please come up with a better name");
    assert_eq!(report[1].title, "Line 99999 Variable 'cd' seems odd. Please come up with a better name");
    assert_eq!(report[2].title, "Line 123456 Variable 'ef' seems odd. Please come up with a better name");
}

#[test]
fn suggest_answers_with_an_empty_title_where_nothing_is_wrong() {
    let rules = NameValidity {};
    let line = rules.suggest(&Variable::new("counter", VariableKind::Let, "1", 0));
    assert_eq!(line.title, "");
    assert_eq!(line.variable_name, "counter");
}

#[test]
fn suggest_matches_the_formatted_message() {
    let rules = NameValidity {};
    for linum in [0usize, 9, 10, 12345, 100000, usize::MAX] {
        let line = rules.suggest(&Variable::new("ab", VariableKind::Var, "1", linum));
        assert_eq!(
            line.title,
            format!("Line {:>5} Variable '{}' seems odd. Please come up with a better name", linum, "ab")
        );
    }
}

#[test]
fn verdicts_follow_the_cascade() {
    let rules = NameValidity {};
    let judge = |name: &str, kind: VariableKind| rules.judge(&Variable::new(name, kind, "1", 0));
    assert_eq!(judge("BAD", VariableKind::Const), Verdict::OddConstant);
    assert_eq!(judge("a-b", VariableKind::Const), Verdict::OddConstant);
    assert_eq!(judge("MIN", VariableKind::Const), Verdict::CapitalStart);
    assert_eq!(judge("a$b", VariableKind::Let), Verdict::PoorChars);
    assert_eq!(judge("A&b", VariableKind::Var), Verdict::PoorChars);
    assert_eq!(judge("Name", VariableKind::Global), Verdict::CapitalStart);
    assert_eq!(judge("ab", VariableKind::Let), Verdict::OddLength);
    assert_eq!(judge("", VariableKind::Let), Verdict::OddLength);
    assert_eq!(judge("i", VariableKind::Let), Verdict::Fine);
    assert_eq!(judge("x", VariableKind::Let), Verdict::OddLength);
    assert_eq!(judge("url", VariableKind::Let), Verdict::Fine);
    assert_eq!(judge("counter", VariableKind::Global), Verdict::Fine);
}

#[test]
fn constant_names() {
    let rules = NameValidity {};
    assert!(rules.named_appropriately_as_constant("MAX"));
    assert!(rules.named_appropriately_as_constant("MIN"));
    assert!(!rules.named_appropriately_as_constant("BAD"));
    assert!(!rules.named_appropriately_as_constant("max"));
    assert!(!rules.named_appropriately_as_constant(""));
}

#[test]
fn appropriate_names() {
    let rules = NameValidity {};
    assert!(rules.named_appropriately("_"));
    assert!(rules.named_appropriately("self"));
    assert!(rules.named_appropriately("xml"));
    assert!(!rules.named_appropriately("sel"));
    assert!(!rules.named_appropriately("selfs"));
    assert!(!rules.named_appropriately(""));
    assert!(!rules.named_appropriately("i"));
}

#[test]
fn capital_start() {
    let rules = NameValidity {};
    assert!(rules.starts_with_capical("Foo"));
    assert!(rules.starts_with_capical("Z"));
    assert!(!rules.starts_with_capical("foo"));
    assert!(!rules.starts_with_capical("fOO"));
    assert!(!rules.starts_with_capical("_Foo"));
    assert!(!rules.starts_with_capical(""));
}

#[test]
fn counter_names() {
    let rules = NameValidity {};
    assert!(rules.named_ijk("i"));
    assert!(rules.named_ijk("j"));
    assert!(rules.named_ijk("k"));
    assert!(rules.named_ijk("e"));
    assert!(!rules.named_ijk("l"));
    assert!(!rules.named_ijk("ij"));
    assert!(!rules.named_ijk("ijke"));
    assert!(!rules.named_ijk(""));
}

#[test]
fn poor_characters() {
    let rules = NameValidity {};
    assert!(rules.includes_poor_chars("a&b"));
    assert!(rules.includes_poor_chars("a$"));
    assert!(rules.includes_poor_chars("a-b"));
    assert!(rules.includes_poor_chars("a_b"));
    assert!(rules.includes_poor_chars("$a"));
    assert!(!rules.includes_poor_chars("_a"));
    assert!(!rules.includes_poor_chars("_a$b"));
    assert!(!rules.includes_poor_chars("_"));
    assert!(!rules.includes_poor_chars("ab"));
    assert!(!rules.includes_poor_chars(""));
}

#[test]
fn titles_are_put_together_from_their_parts() {
    assert_eq!(write_title(3, "Thing", "name", "is bad"), "Line     3 Thing 'name' is bad");
    assert_eq!(write_title(1234567, "", "", ""), "Line 1234567  '' ");
}

#[test]
fn numbers_in_decimal() {
    assert_eq!(decimal_text(0), "0");
    assert_eq!(decimal_text(7), "7");
    assert_eq!(decimal_text(10), "10");
    assert_eq!(decimal_text(1234567890), "1234567890");
    assert_eq!(decimal_text(usize::MAX), usize::MAX.to_string());
}

#[test]
fn line_labels() {
    assert_eq!(line_label_text(0), "    0");
    assert_eq!(line_label_text(12), "   12");
    assert_eq!(line_label_text(9999), " 9999");
    assert_eq!(line_label_text(10000), "10000");
    assert_eq!(line_label_text(100000), "100000");
}

#[test]
fn text_helpers() {
    assert!(same_text("", ""));
    assert!(same_text("abc", "abc"));
    assert!(!same_text("abc", "abd"));
    assert!(!same_text("abc", "ab"));
    assert!(!same_text("", "a"));
    assert!(has_char("a_b", '_'));
    assert!(!has_char("ab", '_'));
    assert!(!has_char("", '_'));
}
