use vstd::prelude::*;
use vstd::string::StrSliceExecFns;
use vstd::string::StringSliceAdditionalSpecFns;
use vstd::string::StringExecFns;

verus! {

/// The unprivileged group a sandboxed child runs as.
pub const SANDBOX_GID: u32 = 1000;

/// The unprivileged user a sandboxed child runs as.
pub const SANDBOX_UID: u32 = 1000;

/// One request to run a program in the sandbox: the command line, the bytes
/// fed to the child's input stream, and the wall-clock deadline.
pub struct SandboxRequest {
    pub program: String,
    pub args: Vec<String>,
    pub stdin_data: Vec<u8>,
    pub timeout_secs: u64,
}

/// One step of the child-side setup that runs after the process split and
/// before the target program image loads.
pub enum SetupStep {
    /// Lower the child's group identity.
    SetGroupId { gid: u32 },
    /// Lower the child's user identity.
    SetUserId { uid: u32 },
    /// Install the address-space ceiling, soft and hard.
    SetAddressLimit { limit: u64 },
}

/// Every user-identity change in the plan comes after a group-identity
/// change: reversing that order can fail or retain elevated privilege.
pub open spec fn gid_set_before_uid(p: Seq<SetupStep>) -> bool {
    forall|j: int|
        0 <= j < p.len() && (#[trigger] p[j]) is SetUserId ==> exists|i: int|
            0 <= i < j && (#[trigger] p[i]) is SetGroupId
}

/// The setup steps every sandboxed child performs before caller-supplied code
/// runs: group identity first, then user identity, then the address-space
/// ceiling. Any step failing must abort the child, so untrusted code never
/// runs at elevated privilege.
pub fn child_setup_plan(limit: u64) -> (r: Vec<SetupStep>)
    ensures
        r@ =~= seq![
            SetupStep::SetGroupId { gid: SANDBOX_GID },
            SetupStep::SetUserId { uid: SANDBOX_UID },
            SetupStep::SetAddressLimit { limit },
        ],
        gid_set_before_uid(r@),
{
    let mut r: Vec<SetupStep> = Vec::new();
    r.push(SetupStep::SetGroupId { gid: SANDBOX_GID });
    r.push(SetupStep::SetUserId { uid: SANDBOX_UID });
    r.push(SetupStep::SetAddressLimit { limit });
    proof {
        assert forall|j: int| 0 <= j < r@.len() && (#[trigger] r@[j]) is SetUserId implies exists|
            i: int,
        | 0 <= i < j && (#[trigger] r@[i]) is SetGroupId by {
            assert(r@[0] is SetGroupId);
            assert(j == 1);
        }
    }
    r
}

/// The request that runs one Python snippet: the interpreter, the snippet
/// handed over on the command line, the caller's input bytes, the caller's
/// deadline.
pub fn py_request(code: &str, timeout_secs: u64, stdin: &str) -> (r: SandboxRequest)
    ensures
        r.program@ == "python3"@,
        r.args.deep_view() =~= seq!["-c"@, code@],
        r.stdin_data@ == stdin.spec_bytes(),
        r.timeout_secs == timeout_secs,
{
    let mut args: Vec<String> = Vec::new();
    args.push(String::from_str("-c"));
    args.push(code.to_owned());
    SandboxRequest {
        program: String::from_str("python3"),
        args,
        stdin_data: stdin.as_bytes_vec(),
        timeout_secs,
    }
}

/// The snippet that drives the external multi-language evaluation harness on
/// one materialized temp file.
pub open spec fn spec_harness_command(dir: Seq<char>, lang: Seq<char>, file: Seq<char>) -> Seq<
    char,
> {
    "import sys; sys.path.append('"@ + dir + "/MultiPL-E/evaluation/src'); import json; import eval_"@
        + lang + "; print(json.dumps(eval_"@ + lang + ".eval_script('"@ + file + "')))"@
}

/// Builds the harness-driving snippet for language `lang` on `tempfile`,
/// with the harness found under `crate_dir`.
pub fn harness_command(crate_dir: &str, lang: &str, tempfile: &str) -> (r: String)
    ensures
        r@ == spec_harness_command(crate_dir@, lang@, tempfile@),
{
    let mut s = String::from_str("import sys; sys.path.append('");
    s.append(crate_dir);
    s.append("/MultiPL-E/evaluation/src'); import json; import eval_");
    s.append(lang);
    s.append("; print(json.dumps(eval_");
    s.append(lang);
    s.append(".eval_script('");
    s.append(tempfile);
    s.append("')))");
    proof {
        assert(s@ =~= spec_harness_command(crate_dir@, lang@, tempfile@));
    }
    s
}

/// The request that runs the evaluation harness on one temp file: the
/// interpreter, the harness-driving snippet on the command line, no input
/// bytes, the caller's deadline.
pub fn harness_request(crate_dir: &str, lang: &str, tempfile: &str, timeout_secs: u64) -> (r:
    SandboxRequest)
    ensures
        r.program@ == "python3"@,
        r.args.deep_view() =~= seq![
            "-c"@,
            spec_harness_command(crate_dir@, lang@, tempfile@),
        ],
        r.stdin_data@ == Seq::<u8>::empty(),
        r.timeout_secs == timeout_secs,
{
    let mut args: Vec<String> = Vec::new();
    args.push(String::from_str("-c"));
    args.push(harness_command(crate_dir, lang, tempfile));
    SandboxRequest {
        program: String::from_str("python3"),
        args,
        stdin_data: Vec::new(),
        timeout_secs,
    }
}

} // verus!
