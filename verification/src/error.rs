//! Errors of the LLM client and their short labels.
use vstd::prelude::*;
use vstd::string::StringExecFns;

verus! {

/// An error of the LLM client.
#[derive(Debug)]
pub enum LiterLlmError {
    Authentication { message: String },
    RateLimited { message: String },
    BadRequest { message: String },
    ContextWindowExceeded { message: String },
    ContentPolicy { message: String },
    NotFound { message: String },
    ServerError { message: String },
    ServiceUnavailable { message: String },
    Timeout,
    Network(String),
    Streaming { message: String },
    EndpointNotSupported { message: String },
    InvalidHeader { message: String },
    Serialization(String),
    BudgetExceeded { message: String },
    HookRejected { message: String },
    InternalError { message: String },
}

/// The short, stable label of each kind of error.
pub open spec fn kind_label(e: LiterLlmError) -> Seq<char> {
    match e {
        LiterLlmError::Authentication { .. } => "Authentication"@,
        LiterLlmError::RateLimited { .. } => "RateLimited"@,
        LiterLlmError::BadRequest { .. } => "BadRequest"@,
        LiterLlmError::ContextWindowExceeded { .. } => "ContextWindowExceeded"@,
        LiterLlmError::ContentPolicy { .. } => "ContentPolicy"@,
        LiterLlmError::NotFound { .. } => "NotFound"@,
        LiterLlmError::ServerError { .. } => "ServerError"@,
        LiterLlmError::ServiceUnavailable { .. } => "ServiceUnavailable"@,
        LiterLlmError::Timeout => "Timeout"@,
        LiterLlmError::Network(_) => "Network"@,
        LiterLlmError::Streaming { .. } => "Streaming"@,
        LiterLlmError::EndpointNotSupported { .. } => "EndpointNotSupported"@,
        LiterLlmError::InvalidHeader { .. } => "InvalidHeader"@,
        LiterLlmError::Serialization(_) => "Serialization"@,
        LiterLlmError::BudgetExceeded { .. } => "BudgetExceeded"@,
        LiterLlmError::HookRejected { .. } => "HookRejected"@,
        _ => "Unknown"@,
    }
}

/// The text that describes an error.
pub open spec fn error_message(e: LiterLlmError) -> Seq<char> {
    match e {
        LiterLlmError::Authentication { message } => message@,
        LiterLlmError::RateLimited { message } => message@,
        LiterLlmError::BadRequest { message } => message@,
        LiterLlmError::ContextWindowExceeded { message } => message@,
        LiterLlmError::ContentPolicy { message } => message@,
        LiterLlmError::NotFound { message } => message@,
        LiterLlmError::ServerError { message } => message@,
        LiterLlmError::ServiceUnavailable { message } => message@,
        LiterLlmError::Timeout => "request timed out"@,
        LiterLlmError::Network(message) => message@,
        LiterLlmError::Streaming { message } => message@,
        LiterLlmError::EndpointNotSupported { message } => message@,
        LiterLlmError::InvalidHeader { message } => message@,
        LiterLlmError::Serialization(message) => message@,
        LiterLlmError::BudgetExceeded { message } => message@,
        LiterLlmError::HookRejected { message } => message@,
        LiterLlmError::InternalError { message } => message@,
    }
}

impl LiterLlmError {
    /// The text that describes this error.
    pub fn message(&self) -> (r: &str)
        ensures
            r@ == error_message(*self),
    {
        match self {
            LiterLlmError::Authentication { message } => message.as_str(),
            LiterLlmError::RateLimited { message } => message.as_str(),
            LiterLlmError::BadRequest { message } => message.as_str(),
            LiterLlmError::ContextWindowExceeded { message } => message.as_str(),
            LiterLlmError::ContentPolicy { message } => message.as_str(),
            LiterLlmError::NotFound { message } => message.as_str(),
            LiterLlmError::ServerError { message } => message.as_str(),
            LiterLlmError::ServiceUnavailable { message } => message.as_str(),
            LiterLlmError::Timeout => "request timed out",
            LiterLlmError::Network(message) => message.as_str(),
            LiterLlmError::Streaming { message } => message.as_str(),
            LiterLlmError::EndpointNotSupported { message } => message.as_str(),
            LiterLlmError::InvalidHeader { message } => message.as_str(),
            LiterLlmError::Serialization(message) => message.as_str(),
            LiterLlmError::BudgetExceeded { message } => message.as_str(),
            LiterLlmError::HookRejected { message } => message.as_str(),
            LiterLlmError::InternalError { message } => message.as_str(),
        }
    }
}

/// Return a short, stable label for each error variant.
///
/// Used to prefix error messages with `[Label]` so callers can inspect the
/// kind of error even when a binding only passes strings.
pub fn error_kind_label(e: &LiterLlmError) -> (r: &'static str)
    ensures
        r@ == kind_label(*e),
{
    match e {
        LiterLlmError::Authentication { .. } => "Authentication",
        LiterLlmError::RateLimited { .. } => "RateLimited",
        LiterLlmError::BadRequest { .. } => "BadRequest",
        LiterLlmError::ContextWindowExceeded { .. } => "ContextWindowExceeded",
        LiterLlmError::ContentPolicy { .. } => "ContentPolicy",
        LiterLlmError::NotFound { .. } => "NotFound",
        LiterLlmError::ServerError { .. } => "ServerError",
        LiterLlmError::ServiceUnavailable { .. } => "ServiceUnavailable",
        LiterLlmError::Timeout => "Timeout",
        LiterLlmError::Network(_) => "Network",
        LiterLlmError::Streaming { .. } => "Streaming",
        LiterLlmError::EndpointNotSupported { .. } => "EndpointNotSupported",
        LiterLlmError::InvalidHeader { .. } => "InvalidHeader",
        LiterLlmError::Serialization(_) => "Serialization",
        LiterLlmError::BudgetExceeded { .. } => "BudgetExceeded",
        LiterLlmError::HookRejected { .. } => "HookRejected",
        _ => "Unknown",
    }
}

/// The text `[Label] message` of an error.
pub open spec fn formatted_error(e: LiterLlmError) -> Seq<char> {
    "["@ + kind_label(e) + "] "@ + error_message(e)
}

/// Format an error with a `[Label] message` prefix.
pub fn format_error(e: &LiterLlmError) -> (r: String)
    ensures
        r@ == formatted_error(*e),
{
    let mut out = "[".to_owned();
    out.append(error_kind_label(e));
    out.append("] ");
    out.append(e.message());
    out
}

/// No label holds the character `]`.
proof fn lemma_label_without_bracket(e: LiterLlmError)
    ensures
        forall|k: int| 0 <= k < kind_label(e).len() ==> kind_label(e)[k] != ']',
{
    match e {
        LiterLlmError::Authentication { .. } => {
            reveal_strlit("Authentication");
        },
        LiterLlmError::RateLimited { .. } => {
            reveal_strlit("RateLimited");
        },
        LiterLlmError::BadRequest { .. } => {
            reveal_strlit("BadRequest");
        },
        LiterLlmError::ContextWindowExceeded { .. } => {
            reveal_strlit("ContextWindowExceeded");
        },
        LiterLlmError::ContentPolicy { .. } => {
            reveal_strlit("ContentPolicy");
        },
        LiterLlmError::NotFound { .. } => {
            reveal_strlit("NotFound");
        },
        LiterLlmError::ServerError { .. } => {
            reveal_strlit("ServerError");
        },
        LiterLlmError::ServiceUnavailable { .. } => {
            reveal_strlit("ServiceUnavailable");
        },
        LiterLlmError::Timeout => {
            reveal_strlit("Timeout");
        },
        LiterLlmError::Network(_) => {
            reveal_strlit("Network");
        },
        LiterLlmError::Streaming { .. } => {
            reveal_strlit("Streaming");
        },
        LiterLlmError::EndpointNotSupported { .. } => {
            reveal_strlit("EndpointNotSupported");
        },
        LiterLlmError::InvalidHeader { .. } => {
            reveal_strlit("InvalidHeader");
        },
        LiterLlmError::Serialization(_) => {
            reveal_strlit("Serialization");
        },
        LiterLlmError::BudgetExceeded { .. } => {
            reveal_strlit("BudgetExceeded");
        },
        LiterLlmError::HookRejected { .. } => {
            reveal_strlit("HookRejected");
        },
        LiterLlmError::InternalError { .. } => {
            reveal_strlit("Unknown");
        },
    }
}

/// The label of an error can be read back from its formatted text: the text
/// opens with `[`, the label follows, the first `]` closes it, and `] `
/// stands between the label and the message.
pub proof fn law_label_reads_back(e: LiterLlmError)
    ensures
        formatted_error(e)[0] == '[',
        formatted_error(e).subrange(1, 1 + kind_label(e).len() as int) == kind_label(e),
        forall|k: int| 1 <= k < 1 + kind_label(e).len() as int ==> formatted_error(e)[k] != ']',
        formatted_error(e)[1 + kind_label(e).len() as int] == ']',
        formatted_error(e)[2 + kind_label(e).len() as int] == ' ',
        formatted_error(e).subrange(3 + kind_label(e).len() as int, formatted_error(e).len() as int) == error_message(e),
{
    reveal_strlit("[");
    reveal_strlit("] ");
    lemma_label_without_bracket(e);
    let l = kind_label(e);
    let r = formatted_error(e);
    assert(r =~= seq!['['] + l + seq![']', ' '] + error_message(e));
    assert(r.subrange(1, 1 + l.len() as int) =~= l);
    assert forall|k: int| 1 <= k < 1 + l.len() as int implies r[k] != ']' by {
        assert(r[k] == l[k - 1]);
    }
    assert(r.subrange(3 + l.len() as int, r.len() as int) =~= error_message(e));
}

} // verus!
