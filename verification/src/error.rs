//! The errors of the launcher's core.

use vstd::prelude::*;
use vstd::string::*;

verus! {

pub type CoreResult<T> = Result<T, CoreError>;

/// What can go wrong in the launcher's core.
#[derive(Debug)]
pub enum CoreError {
    Io(std::io::Error),
    Serde(serde_json::Error),
    Config(String),
    Process(String),
    Network(String),
    UnsupportedPlatform,
}

/// The text of an I/O error: `std::io::Error`'s `to_string`. It depends on
/// the operating system, so nothing is said of it.
#[verifier::external_body]
pub(crate) fn io_error_text(e: &std::io::Error) -> String {
    e.to_string()
}

/// The text of a JSON error: `serde_json::Error`'s `to_string`.
#[verifier::external_body]
fn json_error_text(e: &serde_json::Error) -> String {
    e.to_string()
}

/// `prefix` followed by `detail`.
pub fn prefixed(prefix: &str, detail: &str) -> (r: String)
    ensures
        r@ == prefix@ + detail@,
{
    let mut out = prefix.to_owned();
    out.append(detail);
    out
}

impl CoreError {
    /// The text of the error where it is this crate's own.
    pub open spec fn spec_message(self) -> Option<Seq<char>> {
        match self {
            CoreError::Io(_) => None,
            CoreError::Serde(_) => None,
            CoreError::Config(m) => Some("config error: "@ + m@),
            CoreError::Process(m) => Some("process error: "@ + m@),
            CoreError::Network(m) => Some("network error: "@ + m@),
            CoreError::UnsupportedPlatform => Some("unsupported platform"@),
        }
    }

    /// The error as a line of text. An I/O or JSON error is shown as
    /// `io error: ` or `serde error: ` followed by that error's own text.
    pub fn message(&self) -> (r: String)
        ensures
            match *self {
                CoreError::Io(_) => r@.len() >= 10 && r@.take(10) == "io error: "@,
                CoreError::Serde(_) => r@.len() >= 13 && r@.take(13) == "serde error: "@,
                _ => Some(r@) == self.spec_message(),
            },
    {
        match self {
            CoreError::Io(e) => {
                let text = io_error_text(e);
                let r = prefixed("io error: ", text.as_str());
                proof {
                    reveal_strlit("io error: ");
                    assert(r@.take(10) =~= "io error: "@);
                }
                r
            },
            CoreError::Serde(e) => {
                let text = json_error_text(e);
                let r = prefixed("serde error: ", text.as_str());
                proof {
                    reveal_strlit("serde error: ");
                    assert(r@.take(13) =~= "serde error: "@);
                }
                r
            },
            CoreError::Config(m) => prefixed("config error: ", m.as_str()),
            CoreError::Process(m) => prefixed("process error: ", m.as_str()),
            CoreError::Network(m) => prefixed("network error: ", m.as_str()),
            CoreError::UnsupportedPlatform => "unsupported platform".to_owned(),
        }
    }
}

} // verus!
