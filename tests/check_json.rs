use lmrs::check::{check_json, CheckError, CheckResult};
use lmrs::collections::FlagSet;
use lmrs::record::{Record, Shape};
use lmrs::rules::parse_rules;

fn record(flags: &[(&str, bool)], shapes: &[(&str, &str)]) -> Record {
    Record {
        flags: flags.iter().map(|(k, v)| (k.to_string(), *v)).collect(),
        shapes: shapes
            .iter()
            .map(|(label, shape_type)| Shape {
                label: label.to_string(),
                shape_type: shape_type.to_string(),
            })
            .collect(),
    }
}

/// The record of `img1.json`: one point labelled `TL`.
fn img1() -> Record {
    record(&[], &[("TL", "point")])
}

/// The record of `test.json`: four corner points, flag `f1` set and `f2` not.
fn test_json() -> Record {
    record(
        &[("f1", true), ("f2", false)],
        &[
            ("TL", "point"),
            ("TR", "point"),
            ("BL", "point"),
            ("BR", "point"),
        ],
    )
}

fn run_check_json() {
    let rule = "TL > 0".to_string();
    let rules = vec![rule];
    let asts = parse_rules(&rules).unwrap();
    assert_eq!(
        check_json(&rules, &asts, img1(), &FlagSet::new(), &FlagSet::new()).unwrap(),
        CheckResult::Passed,
        "Valid rule"
    );

    let rule = "X == 0".to_string();
    let rules = vec![rule];
    let asts = parse_rules(&rules).unwrap();
    assert_eq!(
        check_json(&rules, &asts, img1(), &FlagSet::new(), &FlagSet::new()).unwrap(),
        CheckResult::Passed,
        "Non-existent variable"
    );

    let rule = "TL == 0".to_string();
    let rules = vec![rule.clone()];
    let asts = parse_rules(&rules).unwrap();
    assert_eq!(
        check_json(&rules, &asts, img1(), &FlagSet::new(), &FlagSet::new()).unwrap_err(),
        CheckError::EvaluatedFalse(rule, (1, 0)),
        "False rule"
    );
    let (rule1, rule2) = ("TL == 0".to_string(), "TR == 1".to_string());
    let rules = vec![rule1.clone(), rule2.clone()];
    let asts = parse_rules(&rules).unwrap();
    let errors = vec![(rule1, (1, 0)), (rule2, (0, 1))];
    assert_eq!(
        check_json(&rules, &asts, img1(), &FlagSet::new(), &FlagSet::new()).unwrap_err(),
        CheckError::EvaluatedMultipleFalses(errors),
        "False rule"
    );

    let rule = "TL == TR".to_string();
    let rules = vec![rule];
    let asts = parse_rules(&rules).unwrap();
    assert_eq!(
        check_json(&rules, &asts, test_json(), &FlagSet::new(), &FlagSet::new()).unwrap(),
        CheckResult::Passed,
        "Valid rule"
    );
    assert_eq!(
        check_json(
            &rules,
            &asts,
            test_json(),
            &FlagSet::from_iter(vec!["f1".into()]),
            &FlagSet::new()
        )
        .unwrap(),
        CheckResult::Passed,
        "Test for a true flag"
    );
    assert_eq!(
        check_json(
            &rules,
            &asts,
            test_json(),
            &FlagSet::from_iter(vec!["f2".into()]),
            &FlagSet::new()
        )
        .unwrap(),
        CheckResult::Skipped,
        "Test for a false flag"
    );
    assert_eq!(
        check_json(
            &rules,
            &asts,
            test_json(),
            &FlagSet::new(),
            &FlagSet::from_iter(vec!["f1".into()])
        )
        .unwrap(),
        CheckResult::Skipped,
        "Test for ignoring flag"
    );
    assert_eq!(
        check_json(
            &rules,
            &asts,
            test_json(),
            &FlagSet::from_iter(vec!["fx".into()]),
            &FlagSet::new()
        )
        .unwrap(),
        CheckResult::Skipped,
        "Test for a non-existent flag"
    );

    let rule = "TL == BL + 1".to_string();
    let rules = vec![rule.clone()];
    let asts = parse_rules(&rules).unwrap();
    assert_eq!(
        check_json(&rules, &asts, test_json(), &FlagSet::new(), &FlagSet::new()).unwrap_err(),
        CheckError::EvaluatedFalse(rule, (1, 2)),
        "False rule"
    );
}

#[test]
fn dsl_test_check_json() {
    run_check_json();
}

#[test]
fn lib_test_check_json() {
    run_check_json();
}

#[test]
fn single_point_record_scenarios() {
    let rec = img1();
    let cases = [("TL > 0", None), ("X == 0", None), ("TL == 0", Some((1, 0)))];
    for (text, failure) in cases {
        let rules = vec![text.to_string()];
        let asts = parse_rules(&rules).unwrap();
        let got = check_json(&rules, &asts, rec.clone(), &FlagSet::new(), &FlagSet::new());
        match failure {
            None => assert_eq!(got.unwrap(), CheckResult::Passed),
            Some(vals) => assert_eq!(
                got.unwrap_err(),
                CheckError::EvaluatedFalse(text.to_string(), vals)
            ),
        }
    }
}

#[test]
fn multiple_failures_keep_rule_order() {
    let rec = record(&[], &[("TL", "point")]);
    let rules = vec!["TR == 1".to_string(), "TL == 0".to_string()];
    let asts = parse_rules(&rules).unwrap();
    assert_eq!(
        check_json(&rules, &asts, rec, &FlagSet::new(), &FlagSet::new()).unwrap_err(),
        CheckError::EvaluatedMultipleFalses(vec![
            ("TR == 1".to_string(), (0, 1)),
            ("TL == 0".to_string(), (1, 0)),
        ])
    );
}

#[test]
fn only_point_shapes_are_counted() {
    let rec = record(
        &[],
        &[
            ("TL", "rectangle"),
            ("TL", "point"),
            ("TL", "polygon"),
            ("BL", "circle"),
        ],
    );
    let rules = vec!["TL == 1".to_string(), "BL == 0".to_string()];
    let asts = parse_rules(&rules).unwrap();
    assert_eq!(
        check_json(&rules, &asts, rec, &FlagSet::new(), &FlagSet::new()).unwrap(),
        CheckResult::Passed
    );
    let rects = record(&[], &[("TL", "rectangle"), ("TR", "rectangle")]);
    let rules = vec!["TL + TR == 0".to_string()];
    let asts = parse_rules(&rules).unwrap();
    assert_eq!(
        check_json(&rules, &asts, rects, &FlagSet::new(), &FlagSet::new()).unwrap(),
        CheckResult::Passed
    );
}

#[test]
fn repeated_labels_are_counted() {
    let rec = record(
        &[],
        &[
            ("A", "point"),
            ("B", "point"),
            ("A", "point"),
            ("A", "point"),
        ],
    );
    let rules = vec!["A == 2 * B".to_string()];
    let asts = parse_rules(&rules).unwrap();
    assert_eq!(
        check_json(&rules, &asts, rec, &FlagSet::new(), &FlagSet::new()).unwrap_err(),
        CheckError::EvaluatedFalse("A == 2 * B".to_string(), (3, 2))
    );
}

#[test]
fn flag_gate_truth_table() {
    let rules = vec!["TL == 5".to_string()];
    let asts = parse_rules(&rules).unwrap();
    let set = |names: &[&str]| FlagSet::from_iter(names.iter().map(|n| n.to_string()));
    // Required flag present: evaluated (and fails).
    assert!(check_json(&rules, &asts, test_json(), &set(&["f1"]), &set(&[])).is_err());
    // Required flag absent (false): skipped.
    assert_eq!(
        check_json(&rules, &asts, test_json(), &set(&["f2"]), &set(&[])),
        Ok(CheckResult::Skipped)
    );
    // Ignored flag present: skipped even though otherwise eligible.
    assert_eq!(
        check_json(&rules, &asts, test_json(), &set(&["f1"]), &set(&["f1"])),
        Ok(CheckResult::Skipped)
    );
    // Required flag that no record has: skipped.
    assert_eq!(
        check_json(&rules, &asts, test_json(), &set(&["fx"]), &set(&[])),
        Ok(CheckResult::Skipped)
    );
    // One of several required flags is enough.
    assert!(check_json(&rules, &asts, test_json(), &set(&["fx", "f1"]), &set(&[])).is_err());
    // An ignored flag that is not set does not skip.
    assert!(check_json(&rules, &asts, test_json(), &set(&[]), &set(&["f2"])).is_err());
}

#[test]
fn empty_rule_set_passes() {
    let rules: Vec<String> = vec![];
    let asts = parse_rules(&rules).unwrap();
    assert_eq!(
        check_json(&rules, &asts, img1(), &FlagSet::new(), &FlagSet::new()),
        Ok(CheckResult::Passed)
    );
}

#[test]
fn error_messages() {
    assert_eq!(
        CheckError::EvaluatedFalse("TL == 0".to_string(), (1, 0)).message(),
        "Unsatisfied rule; \"TL == 0\": 1 vs. 0"
    );
    assert_eq!(
        CheckError::EvaluatedMultipleFalses(vec![
            ("TL == 0".to_string(), (1, 0)),
            ("TR == -1".to_string(), (0, -1)),
        ])
        .message(),
        "Unsatisfied rules; \"TL == 0\": 1 vs. 0,  \"TR == -1\": 0 vs. -1"
    );
    assert_eq!(CheckError::FileNotFound.message(), "FileNotFound");
    assert_eq!(
        CheckError::InvalidJson("bad \"x\"".to_string()).message(),
        "InvalidJson(\"bad \\\"x\\\"\")"
    );
    assert_eq!(
        CheckError::EvaluatedFalse("A < B".to_string(), (isize::MIN, isize::MAX)).message(),
        format!("Unsatisfied rule; \"A < B\": {} vs. {}", isize::MIN, isize::MAX)
    );
}

#[test]
fn rule_without_comparison_never_fails() {
    let rules = vec!["TL + 1".to_string(), "-TL * 3".to_string()];
    let asts = parse_rules(&rules).unwrap();
    assert_eq!(
        check_json(&rules, &asts, img1(), &FlagSet::new(), &FlagSet::new()),
        Ok(CheckResult::Passed)
    );
}
