use codeexec::policy::memory_limit;
use codeexec::policy::startup_memory_limit;
use codeexec::request::child_setup_plan;
use codeexec::request::harness_command;
use codeexec::request::harness_request;
use codeexec::request::py_request;
use codeexec::request::SetupStep;
use codeexec::service::cov_file_name;
use codeexec::service::temp_file_name;
use codeexec::service::FileCounter;
use codeexec::service::ServiceState;
use codeexec::numerals::usize_to_string;

#[test]
fn memory_limit_is_even_share() {
    assert_eq!(memory_limit(16_000_000, 8), 2_000_000);
    assert_eq!(memory_limit(7, 2), 3);
    assert_eq!(memory_limit(0, 1), 0);
}

#[test]
fn startup_limit_reads_host_figure() {
    let limit = startup_memory_limit(1);
    assert!(limit.is_some());
}

#[test]
fn fresh_ids_strictly_increase() {
    let mut c = FileCounter::new();
    let a = c.fresh_id();
    let b = c.fresh_id();
    let d = c.fresh_id();
    assert_eq!(a, 0);
    assert_eq!(b, 1);
    assert_eq!(d, 2);
    assert!(a < b && b < d);
}

#[test]
fn service_grants_identical_ceilings_and_fresh_ids() {
    let mut s = ServiceState::new(8_000_000, 4);
    let (c1, id1) = s.serve_request();
    let (c2, id2) = s.serve_request();
    let (c3, id3) = s.serve_request();
    assert_eq!(c1, 2_000_000);
    assert_eq!(c1, c2);
    assert_eq!(c2, c3);
    assert!(id1 < id2 && id2 < id3);
}

#[test]
fn temp_file_names_carry_the_identifier() {
    assert_eq!(temp_file_name("/tmp/codeexec", 7, "py"), "/tmp/codeexec/7.py");
    assert_eq!(temp_file_name("/tmp/codeexec", 123, "rs"), "/tmp/codeexec/123.rs");
    assert_eq!(cov_file_name("/tmp/codeexec/7.py"), "/tmp/codeexec/7.py.cov");
}

#[test]
fn decimal_rendering() {
    assert_eq!(usize_to_string(0), "0");
    assert_eq!(usize_to_string(9), "9");
    assert_eq!(usize_to_string(10), "10");
    assert_eq!(usize_to_string(255), "255");
    assert_eq!(usize_to_string(12345), "12345");
}

#[test]
fn setup_plan_lowers_group_before_user_before_limit() {
    let plan = child_setup_plan(4096);
    assert_eq!(plan.len(), 3);
    assert!(matches!(plan[0], SetupStep::SetGroupId { gid: 1000 }));
    assert!(matches!(plan[1], SetupStep::SetUserId { uid: 1000 }));
    assert!(matches!(plan[2], SetupStep::SetAddressLimit { limit: 4096 }));
}

#[test]
fn py_request_carries_code_and_stdin() {
    let r = py_request("print(\"hi\")", 5, "ping");
    assert_eq!(r.program, "python3");
    assert_eq!(r.args.len(), 2);
    assert_eq!(r.args[0], "-c");
    assert_eq!(r.args[1], "print(\"hi\")");
    assert_eq!(r.stdin_data, b"ping".to_vec());
    assert_eq!(r.timeout_secs, 5);
}

#[test]
fn harness_command_is_the_eval_snippet() {
    let cmd = harness_command("/srv", "lua", "/tmp/codeexec/3.lua");
    assert_eq!(
        cmd,
        "import sys; sys.path.append('/srv/MultiPL-E/evaluation/src'); import json; \
         import eval_lua; print(json.dumps(eval_lua.eval_script('/tmp/codeexec/3.lua')))"
    );
}

#[test]
fn harness_request_has_no_stdin() {
    let r = harness_request("/srv", "lua", "/tmp/codeexec/3.lua", 30);
    assert_eq!(r.program, "python3");
    assert_eq!(r.args[0], "-c");
    assert!(r.args[1].contains("eval_lua"));
    assert!(r.stdin_data.is_empty());
    assert_eq!(r.timeout_secs, 30);
}
