//! The one error type of the daemon.

use vstd::prelude::*;
use vstd::string::StringExecFns;

verus! {

/// Declares `reqwest::Error`, a transport failure. Nothing inside it is looked at.
#[verifier::external_type_specification]
#[verifier::external_body]
pub struct ExHttpError(reqwest::Error);

/// What `reqwest::Error` writes through `Display`: a phrase for the kind of
/// failure and, where there is one, the URL. Both are held in the error.
pub uninterp spec fn http_error_text(error: reqwest::Error) -> Seq<char>;

/// Calls `to_string` on a `reqwest::Error`. The result is what the error writes
/// through `Display`.
#[verifier::external_body]
fn http_error_to_string(error: &reqwest::Error) -> (text: String)
    ensures
        text@ == http_error_text(*error),
{
    error.to_string()
}

/// Everything that can go wrong, one variant for each source.
#[derive(Debug)]
pub enum SentinelError {
    /// A required setting is missing or has an invalid format.
    Config(String),
    /// A Solana RPC node answered with an error, or with no usable answer.
    Rpc(String),
    /// Transport failure: network, deadline, TLS.
    Http(reqwest::Error),
    /// The LLM client failed. The crate of the client, `rust-llm-client`, is not on
    /// crates.io, so its error cannot be held: this is the text of what it reported.
    LlmClient(String),
    /// The Telegram Bot API answered `ok: false`.
    Telegram(String),
    /// A peer's response was over the byte cap or not valid JSON.
    MalformedResponse(String),
}

impl SentinelError {
    /// What the error says to an operator.
    pub open spec fn text(&self) -> Seq<char> {
        match self {
            SentinelError::Config(detail) => "Configuration error: "@ + detail@,
            SentinelError::Rpc(detail) => "RPC error: "@ + detail@,
            SentinelError::Http(error) => "HTTP error: "@ + http_error_text(*error),
            SentinelError::LlmClient(detail) => "LLM client error: "@ + detail@,
            SentinelError::Telegram(detail) => "Telegram error: "@ + detail@,
            SentinelError::MalformedResponse(detail) => "Malformed response: "@ + detail@,
        }
    }

    /// This is a `MalformedResponse` that says `detail`.
    pub open spec fn is_malformed(&self, detail: Seq<char>) -> bool {
        self matches SentinelError::MalformedResponse(said) && said@ == detail
    }

    /// This is an `Rpc` error that says `detail`.
    pub open spec fn is_rpc(&self, detail: Seq<char>) -> bool {
        self matches SentinelError::Rpc(said) && said@ == detail
    }

    /// The error as one line of text: its source, then the detail.
    pub fn to_text(&self) -> (line: String)
        ensures
            line@ == self.text(),
    {
        match self {
            SentinelError::Config(detail) => labelled("Configuration error: ", detail.as_str()),
            SentinelError::Rpc(detail) => labelled("RPC error: ", detail.as_str()),
            SentinelError::Http(error) => {
                let detail = http_error_to_string(error);
                labelled("HTTP error: ", detail.as_str())
            },
            SentinelError::LlmClient(detail) => labelled("LLM client error: ", detail.as_str()),
            SentinelError::Telegram(detail) => labelled("Telegram error: ", detail.as_str()),
            SentinelError::MalformedResponse(detail) => {
                labelled("Malformed response: ", detail.as_str())
            },
        }
    }
}

fn labelled(label: &str, detail: &str) -> (line: String)
    ensures
        line@ == label@ + detail@,
{
    let mut line = label.to_string();
    line.append(detail);
    line
}

impl From<reqwest::Error> for SentinelError {
    fn from(error: reqwest::Error) -> (wrapped: Self) {
        SentinelError::Http(error)
    }
}

impl vstd::std_specs::convert::FromSpecImpl<reqwest::Error> for SentinelError {
    open spec fn obeys_from_spec() -> bool {
        true
    }

    open spec fn from_spec(error: reqwest::Error) -> Self {
        SentinelError::Http(error)
    }
}

/// The line of an error is a label that its source fixes, and behind it the detail,
/// letter for letter.
pub proof fn law_text_is_label_and_detail(error: SentinelError)
    ensures
        match error {
            SentinelError::Config(detail) => error.text() == "Configuration error: "@ + detail@,
            SentinelError::Rpc(detail) => error.text() == "RPC error: "@ + detail@,
            SentinelError::Http(cause) => error.text() == "HTTP error: "@ + http_error_text(cause),
            SentinelError::LlmClient(detail) => error.text() == "LLM client error: "@ + detail@,
            SentinelError::Telegram(detail) => error.text() == "Telegram error: "@ + detail@,
            SentinelError::MalformedResponse(detail) => error.text() == "Malformed response: "@
                + detail@,
        },
{
}

/// An error is malformed with some detail, or an RPC error with it, exactly when its
/// line reads so: no two sources share a line.
pub proof fn law_line_tells_the_source(error: SentinelError, detail: Seq<char>)
    ensures
        error.is_malformed(detail) <==> error.text() == "Malformed response: "@ + detail,
        error.is_rpc(detail) <==> error.text() == "RPC error: "@ + detail,
        error.is_malformed(detail) ==> error is MalformedResponse,
        error.is_rpc(detail) ==> error is Rpc,
{
    reveal_strlit("Configuration error: ");
    reveal_strlit("RPC error: ");
    reveal_strlit("HTTP error: ");
    reveal_strlit("LLM client error: ");
    reveal_strlit("Telegram error: ");
    reveal_strlit("Malformed response: ");
    let malformed = "Malformed response: "@ + detail;
    let rpc = "RPC error: "@ + detail;
    assert(malformed[0] == 'M' && rpc[0] == 'R');
    assert(malformed.skip("Malformed response: "@.len() as int) =~= detail);
    assert(rpc.skip("RPC error: "@.len() as int) =~= detail);
    match error {
        SentinelError::Config(_) => {
            assert(error.text()[0] == 'C');
        },
        SentinelError::Rpc(said) => {
            assert(error.text()[0] == 'R');
            assert(error.text().skip("RPC error: "@.len() as int) =~= said@);
        },
        SentinelError::Http(_) => {
            assert(error.text()[0] == 'H');
        },
        SentinelError::LlmClient(_) => {
            assert(error.text()[0] == 'L');
        },
        SentinelError::Telegram(_) => {
            assert(error.text()[0] == 'T');
        },
        SentinelError::MalformedResponse(said) => {
            assert(error.text()[0] == 'M');
            assert(error.text().skip("Malformed response: "@.len() as int) =~= said@);
        },
    }
}

} // verus!
