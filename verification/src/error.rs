//! The errors of the runtime, and their texts.

use crate::text;
use vstd::prelude::*;

verus! {

/// An error of the runtime.
#[derive(Debug)]
pub enum CloudHvError {
    VmError(String),
    ApiError(String),
    AgentError(String),
    ContainerError(String),
    ConfigError(String),
    Timeout(String),
    VsockError(String),
    RuncError { exit_code: i32, stderr: String },
    MountError(String),
    /// An I/O error, by its text.
    Io(String),
    /// A JSON error, by its text.
    Json(String),
    /// Any other error, by its text.
    Other(String),
}

/// `n` in decimal, with a sign where it is negative.
pub open spec fn signed_dec(n: int) -> Seq<char> {
    if n < 0 {
        "-"@ + text::dec((-n) as nat)
    } else {
        text::dec(n as nat)
    }
}

fn signed(n: i32) -> (res: String)
    ensures
        res@ == signed_dec(n as int),
{
    if n < 0 {
        let d: String = text::decimal((-(n as i64)) as u64);
        text::join2("-", d.as_str())
    } else {
        text::decimal(n as u64)
    }
}

impl CloudHvError {
    /// The text of the error.
    pub open spec fn text(self) -> Seq<char> {
        match self {
            CloudHvError::VmError(e) => "VM lifecycle error: "@ + e@,
            CloudHvError::ApiError(e) => "Cloud Hypervisor API error: "@ + e@,
            CloudHvError::AgentError(e) => "Guest agent communication error: "@ + e@,
            CloudHvError::ContainerError(e) => "Container error: "@ + e@,
            CloudHvError::ConfigError(e) => "Configuration error: "@ + e@,
            CloudHvError::Timeout(e) => "Timeout waiting for "@ + e@,
            CloudHvError::VsockError(e) => "vsock error: "@ + e@,
            CloudHvError::RuncError { exit_code, stderr } => "runc error: exit_code="@ + signed_dec(
                exit_code as int,
            ) + ", stderr="@ + stderr@,
            CloudHvError::MountError(e) => "mount error: "@ + e@,
            CloudHvError::Io(e) => e@,
            CloudHvError::Json(e) => e@,
            CloudHvError::Other(e) => e@,
        }
    }

    /// The text of the error. What wraps another error adds nothing to that error's text.
    pub fn message(&self) -> (res: String)
        ensures
            res@ == self.text(),
    {
        match self {
            CloudHvError::VmError(e) => text::join2("VM lifecycle error: ", e.as_str()),
            CloudHvError::ApiError(e) => text::join2("Cloud Hypervisor API error: ", e.as_str()),
            CloudHvError::AgentError(e) => text::join2(
                "Guest agent communication error: ",
                e.as_str(),
            ),
            CloudHvError::ContainerError(e) => text::join2("Container error: ", e.as_str()),
            CloudHvError::ConfigError(e) => text::join2("Configuration error: ", e.as_str()),
            CloudHvError::Timeout(e) => text::join2("Timeout waiting for ", e.as_str()),
            CloudHvError::VsockError(e) => text::join2("vsock error: ", e.as_str()),
            CloudHvError::RuncError { exit_code, stderr } => {
                let code: String = signed(*exit_code);
                let head: String = text::join3("runc error: exit_code=", code.as_str(), ", stderr=");
                text::join2(head.as_str(), stderr.as_str())
            },
            CloudHvError::MountError(e) => text::join2("mount error: ", e.as_str()),
            CloudHvError::Io(e) => e.clone(),
            CloudHvError::Json(e) => e.clone(),
            CloudHvError::Other(e) => e.clone(),
        }
    }
}

/// The text of an error ends in what it is about, whole.
pub proof fn law_error_text(e: String, code: i32)
    ensures
        text::has_suffix(CloudHvError::VmError(e).text(), e@),
        text::has_suffix(CloudHvError::ApiError(e).text(), e@),
        text::has_suffix(CloudHvError::AgentError(e).text(), e@),
        text::has_suffix(CloudHvError::ContainerError(e).text(), e@),
        text::has_suffix(CloudHvError::ConfigError(e).text(), e@),
        text::has_suffix(CloudHvError::Timeout(e).text(), e@),
        text::has_suffix(CloudHvError::VsockError(e).text(), e@),
        text::has_suffix(CloudHvError::MountError(e).text(), e@),
        text::has_suffix(
            (CloudHvError::RuncError { exit_code: code, stderr: e }).text(),
            ", stderr="@ + e@,
        ),
        CloudHvError::Io(e).text() == e@,
        CloudHvError::Json(e).text() == e@,
        CloudHvError::Other(e).text() == e@,
{
    lemma_suffix("VM lifecycle error: "@, e@);
    lemma_suffix("Cloud Hypervisor API error: "@, e@);
    lemma_suffix("Guest agent communication error: "@, e@);
    lemma_suffix("Container error: "@, e@);
    lemma_suffix("Configuration error: "@, e@);
    lemma_suffix("Timeout waiting for "@, e@);
    lemma_suffix("vsock error: "@, e@);
    lemma_suffix("mount error: "@, e@);
    let head = "runc error: exit_code="@ + signed_dec(code as int);
    assert(head + ", stderr="@ + e@ =~= head + (", stderr="@ + e@));
    lemma_suffix(head, ", stderr="@ + e@);
}

proof fn lemma_suffix(a: Seq<char>, b: Seq<char>)
    ensures
        text::has_suffix(a + b, b),
{
    let s = a + b;
    assert(s.subrange(s.len() - b.len(), s.len() as int) =~= b);
}

/// A number below zero is written with a minus sign in front of it.
pub proof fn law_signed(n: int)
    ensures
        n >= 0 ==> signed_dec(n) == text::dec(n as nat),
        n < 0 ==> signed_dec(n) == seq!['-'] + text::dec((0 - n) as nat),
{
    reveal_strlit("-");
    assert("-"@ =~= seq!['-']);
}

} // verus!
