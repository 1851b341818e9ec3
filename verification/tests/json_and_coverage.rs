use codeexec::coverage::coverage_result;
use codeexec::coverage::coverage_run_ok;
use codeexec::coverage::parse_coverage_report;
use codeexec::jsonfields::get_int_json;
use codeexec::jsonfields::get_string_json;
use codeexec::supervisor::ExecOutcome;

#[test]
fn string_fields_are_read_with_tolerant_defaults() {
    let doc = "{\"code\":\"print(1)\",\"timeout\":5,\"stdin\":\"ping\"}";
    assert_eq!(get_string_json(doc, "code"), "print(1)");
    assert_eq!(get_string_json(doc, "stdin"), "ping");
    assert_eq!(get_string_json(doc, "lang"), "");
    assert_eq!(get_string_json(doc, "timeout"), "");
    assert_eq!(get_string_json("not json at all", "code"), "");
}

#[test]
fn int_fields_are_read_with_tolerant_defaults() {
    let doc = "{\"code\":\"print(1)\",\"timeout\":5}";
    assert_eq!(get_int_json(doc, "timeout"), 5);
    assert_eq!(get_int_json(doc, "missing"), 0);
    assert_eq!(get_int_json(doc, "code"), 0);
    assert_eq!(get_int_json("{broken", "timeout"), 0);
    assert_eq!(get_int_json("{\"timeout\":-3}", "timeout"), -3);
}

#[test]
fn report_percentage_is_read_from_the_fourth_column() {
    let report = b"Name     Stmts   Miss  Cover\n\
                   ----------------------------\n\
                   x.py         2      0   100%\n\
                   ----------------------------\n\
                   TOTAL        2      0   100%\n";
    assert_eq!(parse_coverage_report(report), Some(100));
    let report = b"Name  Stmts  Miss  Cover\n---------\nfoo.py 10 2 80%\n";
    assert_eq!(parse_coverage_report(report), Some(80));
}

#[test]
fn report_with_carriage_returns_still_parses() {
    let report = b"Name\r\n---------\r\nfoo 1 2 88%\r\n";
    assert_eq!(parse_coverage_report(report), Some(88));
}

#[test]
fn report_without_separator_yields_zero() {
    assert_eq!(parse_coverage_report(b"hello\nworld\n"), Some(0));
    assert_eq!(parse_coverage_report(b""), Some(0));
}

#[test]
fn separator_on_the_last_line_yields_zero() {
    assert_eq!(parse_coverage_report(b"header\n----------"), Some(0));
}

#[test]
fn unreadable_percentage_column_fails_the_parse() {
    assert_eq!(parse_coverage_report(b"---------\nonly three tokens\n"), None);
    assert_eq!(parse_coverage_report(b"---------\na b c d%\n"), None);
    assert_eq!(parse_coverage_report(b"---------\na b c 300%\n"), None);
    assert_eq!(parse_coverage_report(b"---------\na b c %%%\n"), None);
}

#[test]
fn coverage_results_render_percent_or_sentinel() {
    assert_eq!(coverage_result(Some(95)), "95");
    assert_eq!(coverage_result(Some(0)), "0");
    assert_eq!(coverage_result(None), "-1");
}

#[test]
fn only_a_clean_exit_lets_a_coverage_stage_proceed() {
    let ok = ExecOutcome::Exited { code: Some(0), stdout: Vec::new(), stderr: Vec::new() };
    assert!(coverage_run_ok(&ok));
    let bad = ExecOutcome::Exited { code: Some(2), stdout: Vec::new(), stderr: Vec::new() };
    assert!(!coverage_run_ok(&bad));
    let signal = ExecOutcome::Exited { code: None, stdout: Vec::new(), stderr: Vec::new() };
    assert!(!coverage_run_ok(&signal));
    assert!(!coverage_run_ok(&ExecOutcome::TimedOut));
    assert!(!coverage_run_ok(&ExecOutcome::IoFailure { message: "spawn failed".to_string() }));
}
