use codeexec::encode::encode_outcome;
use codeexec::encode::out_to_res;
use codeexec::supervisor::ExecOutcome;

#[test]
fn clean_exit_reports_stdout() {
    let o = ExecOutcome::Exited {
        code: Some(0),
        stdout: b"hi\n".to_vec(),
        stderr: Vec::new(),
    };
    let r = encode_outcome(&o);
    assert_eq!(r.status, 0);
    assert_eq!(r.payload, "hi\n");
    assert_eq!(out_to_res(&o), "0\nhi\n");
}

#[test]
fn timeout_reports_marker_only() {
    let o = ExecOutcome::TimedOut;
    let r = encode_outcome(&o);
    assert_eq!(r.status, 1);
    assert_eq!(r.payload, "Timeout");
    assert_eq!(out_to_res(&o), "1\nTimeout");
}

#[test]
fn nonzero_exit_reports_stderr() {
    let o = ExecOutcome::Exited {
        code: Some(2),
        stdout: b"partial stdout".to_vec(),
        stderr: b"boom".to_vec(),
    };
    let r = encode_outcome(&o);
    assert_eq!(r.status, 1);
    assert_eq!(r.payload, "boom");
    assert_eq!(out_to_res(&o), "1\nboom");
}

#[test]
fn signal_exit_counts_as_failure() {
    let o = ExecOutcome::Exited {
        code: None,
        stdout: b"out".to_vec(),
        stderr: b"killed".to_vec(),
    };
    let r = encode_outcome(&o);
    assert_eq!(r.status, 1);
    assert_eq!(r.payload, "killed");
}

#[test]
fn io_failure_reports_description() {
    let o = ExecOutcome::IoFailure { message: "No such file or directory".to_string() };
    assert_eq!(out_to_res(&o), "1\nNo such file or directory");
}

#[test]
fn decode_failure_reports_description() {
    let o = ExecOutcome::DecodeFailure { message: "invalid utf-8".to_string() };
    assert_eq!(out_to_res(&o), "1\ninvalid utf-8");
}

#[test]
fn invalid_utf8_is_replaced_not_fatal() {
    let o = ExecOutcome::Exited {
        code: Some(0),
        stdout: vec![0xff, 0xfe],
        stderr: Vec::new(),
    };
    let r = encode_outcome(&o);
    assert_eq!(r.status, 0);
    assert_eq!(r.payload, "\u{fffd}\u{fffd}");
}

#[test]
fn echoed_stdin_reaches_payload() {
    let o = ExecOutcome::Exited {
        code: Some(0),
        stdout: b"ping".to_vec(),
        stderr: Vec::new(),
    };
    let r = encode_outcome(&o);
    assert_eq!(r.payload, "ping");
}
