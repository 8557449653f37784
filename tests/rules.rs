use lmrs::expr::{eval, CmpOp, Expr};
use lmrs::parser::{parse_rule, parse_rule_or_stop};
use lmrs::rules::{parse_rules, rule_lines, ParseError};

fn vars(pairs: &[(&str, isize)]) -> Vec<(String, isize)> {
    pairs.iter().map(|(k, v)| (k.to_string(), *v)).collect()
}

fn value(rule: &str, bindings: &[(&str, isize)]) -> Result<isize, (isize, isize)> {
    eval(&parse_rule(rule).expect("rule parses"), &vars(bindings))
}

#[test]
fn double_equals_parses_single_does_not() {
    assert!(parse_rules(&vec!["a == b".into()]).is_ok());
    assert!(parse_rules(&vec!["a = b".into()]).is_err());
}

#[test]
fn precedence_and_associativity() {
    assert_eq!(value("1 + 2 * 3", &[]), Ok(7));
    assert_eq!(value("(1 + 2) * 3", &[]), Ok(9));
    assert_eq!(value("10 - 3 - 2", &[]), Ok(5));
    assert_eq!(value("--4", &[]), Ok(4));
    assert_eq!(value("- 2 * 3", &[]), Ok(-6));
    assert_eq!(value("a - -b", &[("a", 1), ("b", 2)]), Ok(3));
    assert_eq!(value("2*a+b", &[("a", 5), ("b", 1)]), Ok(11));
}

#[test]
fn comparisons() {
    assert_eq!(value("1 < 2", &[]), Ok(1));
    assert_eq!(value("2 <= 2", &[]), Ok(1));
    assert_eq!(value("3 > 4", &[]), Err((3, 4)));
    assert_eq!(value("3 >= 4", &[]), Err((3, 4)));
    assert_eq!(value("3 != 3", &[]), Err((3, 3)));
    assert_eq!(value("x == y", &[("x", 2), ("y", 2)]), Ok(1));
}

#[test]
fn chained_comparison_folds_left() {
    // (1 == 1) == 1 holds; (1 == 2) == 0 fails inside and the inner failure is reported.
    assert_eq!(value("1 == 1 == 1", &[]), Ok(1));
    assert_eq!(value("1 == 2 == 0", &[]), Err((1, 2)));
    match parse_rule("a < b < c").unwrap() {
        Expr::Cmp(inner, CmpOp::LT, _) => assert!(matches!(*inner, Expr::Cmp(_, CmpOp::LT, _))),
        other => panic!("unexpected {:?}", other),
    }
}

#[test]
fn missing_names_read_zero_and_last_binding_wins() {
    assert_eq!(value("missing == 0", &[]), Ok(1));
    assert_eq!(value("a", &[("a", 1), ("a", 7)]), Ok(7));
}

#[test]
fn arithmetic_wraps() {
    assert_eq!(value("a + 1", &[("a", isize::MAX)]), Ok(isize::MIN));
    assert_eq!(value("-a", &[("a", isize::MIN)]), Ok(isize::MIN));
    assert_eq!(value("a * 2", &[("a", isize::MAX)]), Ok(-2));
}

#[test]
fn lexical_details() {
    assert!(parse_rule("  a   ==b ").is_some());
    assert!(parse_rule("_x1 == 0").is_some());
    assert!(parse_rule("0").is_some());
    assert!(parse_rule("01").is_none());
    assert!(parse_rule("1a").is_none());
    assert!(parse_rule("a ==").is_none());
    assert!(parse_rule("").is_none());
    assert!(parse_rule("(a) == b").is_some());
    assert!(parse_rule("(a)== b").is_some());
    assert!(parse_rule("a =< b").is_none());
    assert!(parse_rule("9223372036854775807").is_some());
    assert!(parse_rule("99999999999999999999999").is_none());
    assert!(parse_rule("a\u{3000}== b").is_some());
    assert!(parse_rule("a ==\u{3000}b").is_some());
    assert!(parse_rule(" (a)").is_some());
    assert!(parse_rule("( )").is_none());
}

#[test]
fn parsing_twice_evaluates_alike() {
    let rule = "TL == BL + 1";
    let e1 = parse_rule(rule).unwrap();
    let e2 = parse_rule(rule).unwrap();
    for b in [
        vars(&[]),
        vars(&[("TL", 1), ("BL", 0)]),
        vars(&[("TL", 1), ("BL", 1)]),
    ] {
        assert_eq!(eval(&e1, &b), eval(&e2, &b));
    }
}

#[test]
fn every_bad_rule_is_reported() {
    let rules = vec![
        "a = b".to_string(),
        "a == b".to_string(),
        "(x".to_string(),
    ];
    match parse_rules(&rules) {
        Err(err) => assert_eq!(
            err,
            ParseError::Error(
                "Parse error: invalid rule \"a = b\" at character 2\nParse error: invalid rule \"(x\" at character 0"
                    .to_string()
            )
        ),
        Ok(_) => panic!("bad rules parsed"),
    }
    let err = parse_rules(&vec!["?".to_string()]).unwrap_err();
    assert_eq!(err.message(), "parse error: Parse error: invalid rule \"?\" at character 0");
}

#[test]
fn parse_stop_position() {
    assert_eq!(parse_rule_or_stop("TL == 1 )").err(), Some(8));
    assert_eq!(parse_rule_or_stop("== 1").err(), Some(0));
    assert!(parse_rule_or_stop("TL == 1").is_ok());
}

#[test]
fn rule_text_lines() {
    assert_eq!(rule_lines("a == b\r\nc > 0\n"), vec!["a == b", "c > 0"]);
    assert_eq!(rule_lines("a == b\n\nc"), vec!["a == b", "", "c"]);
    assert_eq!(rule_lines(""), Vec::<String>::new());
    assert_eq!(rule_lines("\n"), vec![""]);
    assert_eq!(rule_lines("a\r"), vec!["a\r"]);
    assert_eq!(rule_lines("a\r\nb\r"), vec!["a", "b\r"]);
}

#[test]
fn white_space_between_tokens_is_insignificant() {
    let b = vars(&[("TL", 1), ("TR", 1), ("BL", 0)]);
    for (tight, spaced) in [
        ("TL==(BL+1)", " TL == ( BL + 1 ) "),
        ("(TL+TR)==2", "( TL + TR ) == 2"),
        ("TL>=-(BL)", "\tTL >= - ( BL )\t"),
    ] {
        let e1 = parse_rule(tight).expect("tight form parses");
        let e2 = parse_rule(spaced).expect("spaced form parses");
        assert_eq!(eval(&e1, &b), eval(&e2, &b));
    }
    assert_eq!(value(" TL == ( BL + 1 ) ", &[("TL", 1), ("BL", 0)]), Ok(1));
    assert_eq!(value("(TL + TR) == 2", &[("TL", 1), ("TR", 0)]), Err((1, 2)));
    assert!(parse_rule("a = = b").is_none());
    assert!(parse_rule("a < = b").is_none());
}
