//! What can go wrong outside of the interface.
use vstd::prelude::*;
use crate::text::owned;

verus! {

/// An error, each with what its source has to say.
#[derive(Debug)]
pub enum TuiError {
    TtyRequired,
    AppServer(String),
    JsonRpc(String),
    Decode(String),
    Terminal(String),
    Telemetry(String),
    Config(String),
}

pub type TuiResult<T> = Result<T, TuiError>;

/// The words for an error.
pub open spec fn error_text(error: TuiError) -> Seq<char> {
    match error {
        TuiError::TtyRequired => "cazean-tui requires a TTY"@,
        TuiError::AppServer(source) => "app-server error: "@ + source@,
        TuiError::JsonRpc(source) => "app-server request failed: "@ + source@,
        TuiError::Decode(source) => "failed to decode app-server response: "@ + source@,
        TuiError::Terminal(source) => "terminal I/O error: "@ + source@,
        TuiError::Telemetry(source) => "telemetry error: "@ + source@,
        TuiError::Config(source) => "invalid TUI config: "@ + source@,
    }
}

fn prefixed(prefix: &str, source: &str) -> (r: String)
    ensures
        r@ == prefix@ + source@,
{
    let mut out: String = owned(prefix);
    out.push_str(source);
    out
}

impl TuiError {
    /// The words for the error.
    pub fn message(&self) -> (r: String)
        ensures
            r@ == error_text(*self),
    {
        match self {
            TuiError::TtyRequired => owned("cazean-tui requires a TTY"),
            TuiError::AppServer(source) => prefixed("app-server error: ", source.as_str()),
            TuiError::JsonRpc(source) => prefixed("app-server request failed: ", source.as_str()),
            TuiError::Decode(source) => prefixed(
                "failed to decode app-server response: ",
                source.as_str(),
            ),
            TuiError::Terminal(source) => prefixed("terminal I/O error: ", source.as_str()),
            TuiError::Telemetry(source) => prefixed("telemetry error: ", source.as_str()),
            TuiError::Config(source) => prefixed("invalid TUI config: ", source.as_str()),
        }
    }
}

// ---------------------------------------------------------------------------
// Laws
// ---------------------------------------------------------------------------

/// An error says where it comes from and what its source has to say.
pub proof fn errors_tell_their_source(source: String)
    ensures
        error_text(TuiError::TtyRequired) == "cazean-tui requires a TTY"@,
        error_text(TuiError::AppServer(source)) == "app-server error: "@ + source@,
        error_text(TuiError::JsonRpc(source)) == "app-server request failed: "@ + source@,
        error_text(TuiError::Decode(source)) == "failed to decode app-server response: "@ + source@,
        error_text(TuiError::Terminal(source)) == "terminal I/O error: "@ + source@,
        error_text(TuiError::Telemetry(source)) == "telemetry error: "@ + source@,
        error_text(TuiError::Config(source)) == "invalid TUI config: "@ + source@,
{
}

} // verus!
