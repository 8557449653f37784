use lmrs::check::{CheckError, CheckResult};
use lmrs::ordered::OrderedWriter;
use lmrs::validate::{report_line, tally, worker_count, worker_share, Tally};

fn run_in_order(order: &[usize], lines: &[Option<&str>]) -> Vec<String> {
    let mut writer = OrderedWriter::new();
    let mut out = Vec::new();
    for &id in order {
        let due = match lines[id] {
            Some(text) => writer.write(id, text.to_string()),
            None => writer.skip(id),
        };
        out.extend(due);
    }
    out.extend(writer.flush_all());
    out
}

#[test]
fn arrival_order_does_not_change_output() {
    let lines = [Some("a\n"), None, Some("c\n"), Some("d\n"), None, Some("f\n")];
    let sequential = run_in_order(&[0, 1, 2, 3, 4, 5], &lines);
    assert_eq!(sequential, vec!["a\n", "c\n", "d\n", "f\n"]);
    for order in [
        [5, 4, 3, 2, 1, 0],
        [1, 3, 5, 0, 2, 4],
        [2, 0, 1, 5, 3, 4],
    ] {
        assert_eq!(run_in_order(&order, &lines), sequential);
    }
}

#[test]
fn writer_holds_lines_until_gap_fills() {
    let mut writer = OrderedWriter::new();
    assert!(writer.write(1, "b".to_string()).is_empty());
    assert!(writer.write(2, "c".to_string()).is_empty());
    assert_eq!(writer.write(0, "a".to_string()), vec!["a", "b", "c"]);
    assert!(writer.write(4, "e".to_string()).is_empty());
    assert_eq!(writer.flush_all(), vec!["e"]);
    assert!(writer.flush_all().is_empty());
}

#[test]
fn counts_never_exceed() {
    let outcomes = vec![
        Ok(CheckResult::Passed),
        Ok(CheckResult::Skipped),
        Err(CheckError::FileNotFound),
        Err(CheckError::EvaluatedFalse("a == 1".to_string(), (0, 1))),
        Ok(CheckResult::Passed),
    ];
    let t = tally(&outcomes);
    assert_eq!((t.valid, t.checked), (2, 4));
    assert_eq!(t.summary(), "2 / 4 annotations are valid.");
    let empty = tally(&vec![]);
    assert_eq!((empty.valid, empty.checked), (0, 0));
    let mut one = Tally::new();
    one.record(&Ok(CheckResult::Skipped));
    assert_eq!((one.valid, one.checked), (0, 0));
}

#[test]
fn report_lines() {
    let pass: Result<CheckResult, CheckError> = Ok(CheckResult::Passed);
    let skip: Result<CheckResult, CheckError> = Ok(CheckResult::Skipped);
    let fail: Result<CheckResult, CheckError> =
        Err(CheckError::EvaluatedFalse("TL == 0".to_string(), (1, 0)));
    assert_eq!(report_line("\"a.json\"", &pass, 0), None);
    assert_eq!(report_line("\"a.json\"", &pass, 1), Some("\"a.json\",\n".to_string()));
    assert_eq!(report_line("\"a.json\"", &skip, 2), None);
    assert_eq!(
        report_line("\"a.json\"", &fail, 0),
        Some("\"a.json\",Unsatisfied rule; \"TL == 0\": 1 vs. 0\n".to_string())
    );
}

#[test]
fn workers_share_ids_round_robin() {
    assert_eq!(worker_share(0, 3, 7), vec![0, 3, 6]);
    assert_eq!(worker_share(2, 3, 7), vec![2, 5]);
    assert_eq!(worker_share(5, 8, 3), Vec::<usize>::new());
    assert_eq!(worker_share(0, 1, 3), vec![0, 1, 2]);
    assert_eq!(worker_count(0, 6), 6);
    assert_eq!(worker_count(3, 6), 3);
    assert_eq!(worker_count(0, 0), 1);
}
