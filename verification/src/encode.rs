use vstd::prelude::*;
use vstd::string::StringExecFns;
use crate::supervisor::ExecOutcome;

verus! {

/// What decoding a byte sequence as text with lossy substitution yields: the
/// text depends on the bytes alone.
pub uninterp spec fn lossy_of(bytes: Seq<u8>) -> Seq<char>;

/// Relies on String::from_utf8_lossy: decodes bytes as UTF-8 text, replacing
/// invalid sequences rather than failing, a function of the bytes alone.
#[verifier::external_body]
fn lossy_string(bytes: &[u8]) -> (r: String)
    ensures
        r@ == lossy_of(bytes@),
{
    String::from_utf8_lossy(bytes).into_owned()
}

/// The caller-visible result of one request: a status discriminator and a
/// payload, the sole contract surface the service exposes.
pub struct EncodedResult {
    pub status: u8,
    pub payload: String,
}

impl EncodedResult {
    pub open spec fn wf(self) -> bool {
        self.status == 0 || self.status == 1
    }
}

/// The status an outcome is reported with: `0` exactly when the child exited
/// with code 0; `1` for every other exit (an unreadable code counts as
/// non-zero), for a timeout, and for every failure.
pub open spec fn spec_status(o: ExecOutcome) -> u8 {
    match o {
        ExecOutcome::Exited { code, .. } => if code == Some(0i32) {
            0u8
        } else {
            1u8
        },
        _ => 1u8,
    }
}

/// The payload an outcome is reported with: the child's decoded standard
/// output on a clean exit; its decoded diagnostic stream on any other exit;
/// the literal timeout marker on a timeout; the failure's description
/// otherwise.
pub open spec fn spec_payload(o: ExecOutcome) -> Seq<char> {
    match o {
        ExecOutcome::Exited { code, stdout, stderr } => if code == Some(0i32) {
            lossy_of(stdout@)
        } else {
            lossy_of(stderr@)
        },
        ExecOutcome::TimedOut => "Timeout"@,
        ExecOutcome::IoFailure { message } => message@,
        ExecOutcome::DecodeFailure { message } => message@,
    }
}

/// Maps an outcome to the caller-visible result, deterministically.
pub fn encode_outcome(o: &ExecOutcome) -> (r: EncodedResult)
    ensures
        r.wf(),
        r.status == spec_status(*o),
        r.payload@ == spec_payload(*o),
{
    match o {
        ExecOutcome::Exited { code, stdout, stderr } => {
            let clean = match code {
                Some(c) => *c == 0,
                None => false,
            };
            if clean {
                EncodedResult { status: 0, payload: lossy_string(stdout.as_slice()) }
            } else {
                EncodedResult { status: 1, payload: lossy_string(stderr.as_slice()) }
            }
        },
        ExecOutcome::TimedOut => EncodedResult {
            status: 1,
            payload: String::from_str("Timeout"),
        },
        ExecOutcome::IoFailure { message } => EncodedResult {
            status: 1,
            payload: String::from_str(message.as_str()),
        },
        ExecOutcome::DecodeFailure { message } => EncodedResult {
            status: 1,
            payload: String::from_str(message.as_str()),
        },
    }
}

/// The first line of the two-line text protocol.
pub open spec fn spec_status_line(status: u8) -> Seq<char> {
    if status == 0 {
        "0\n"@
    } else {
        "1\n"@
    }
}

/// The whole two-line text an outcome is reported as: the status line,
/// then the payload.
pub open spec fn spec_result_text(o: ExecOutcome) -> Seq<char> {
    spec_status_line(spec_status(o)) + spec_payload(o)
}

/// Renders a result as the two-line text protocol.
pub fn render_result(r: EncodedResult) -> (s: String)
    requires
        r.wf(),
    ensures
        s@ == spec_status_line(r.status) + r.payload@,
{
    if r.status == 0 {
        String::from_str("0\n").concat(r.payload.as_str())
    } else {
        String::from_str("1\n").concat(r.payload.as_str())
    }
}

/// The service's result encoder: the two-line text the caller receives for an
/// outcome, always well-formed, whatever the outcome was.
pub fn out_to_res(o: &ExecOutcome) -> (s: String)
    ensures
        s@ == spec_result_text(*o),
{
    render_result(encode_outcome(o))
}

/// Law: a request whose child exits with code 0 is reported with status 0 and
/// a payload that is exactly the child's decoded standard output.
pub proof fn lemma_success_encoding(code: Option<i32>, stdout: Vec<u8>, stderr: Vec<u8>)
    requires
        code == Some(0i32),
    ensures
        spec_status(ExecOutcome::Exited { code, stdout, stderr }) == 0,
        spec_payload(ExecOutcome::Exited { code, stdout, stderr }) == lossy_of(stdout@),
{
}

/// Law: a timed-out request is reported with status 1 and the literal timeout
/// marker alone; a timed-out outcome carries no output, so nothing the child
/// produced can reach the payload.
pub proof fn lemma_timeout_encoding()
    ensures
        spec_status(ExecOutcome::TimedOut) == 1,
        spec_payload(ExecOutcome::TimedOut) == "Timeout"@,
{
}

} // verus!
