//! Errors of request processing.
use vstd::prelude::*;
use crate::text::{push_str, push_signed_decimal, string_of};

verus! {

/// What went wrong while storing, validating or matching rules.
#[derive(Debug)]
pub enum RequestProcessingError {
    /// The database reported an error (its message).
    Database { message: String },
    RuleNotFound { id: i32 },
    InvalidCapturePattern { pattern: String, reason: String },
    InvalidHandlerConfig { handler_type: String, reason: String },
    RuleValidation { reason: String },
    Transaction { reason: String },
    /// A JSON (de)serialisation error (its message).
    Serialization { message: String },
    /// A glob pattern did not compile (the compiler's message).
    PatternCompilation { message: String },
    /// A regular expression did not compile (the compiler's message).
    RegexCompilation { message: String },
}

/// The model of a request processing error, with its texts as character sequences.
pub enum ErrorModel {
    Database(Seq<char>),
    RuleNotFound(i32),
    InvalidCapturePattern(Seq<char>, Seq<char>),
    InvalidHandlerConfig(Seq<char>, Seq<char>),
    RuleValidation(Seq<char>),
    Transaction(Seq<char>),
    Serialization(Seq<char>),
    PatternCompilation(Seq<char>),
    RegexCompilation(Seq<char>),
}

impl View for RequestProcessingError {
    type V = ErrorModel;

    open spec fn view(&self) -> ErrorModel {
        match *self {
            RequestProcessingError::Database { message } => ErrorModel::Database(message@),
            RequestProcessingError::RuleNotFound { id } => ErrorModel::RuleNotFound(id),
            RequestProcessingError::InvalidCapturePattern { pattern, reason } => ErrorModel::InvalidCapturePattern(pattern@, reason@),
            RequestProcessingError::InvalidHandlerConfig { handler_type, reason } => ErrorModel::InvalidHandlerConfig(handler_type@, reason@),
            RequestProcessingError::RuleValidation { reason } => ErrorModel::RuleValidation(reason@),
            RequestProcessingError::Transaction { reason } => ErrorModel::Transaction(reason@),
            RequestProcessingError::Serialization { message } => ErrorModel::Serialization(message@),
            RequestProcessingError::PatternCompilation { message } => ErrorModel::PatternCompilation(message@),
            RequestProcessingError::RegexCompilation { message } => ErrorModel::RegexCompilation(message@),
        }
    }
}

/// The text that describes an error.
pub open spec fn error_message(e: ErrorModel) -> Seq<char> {
    match e {
        ErrorModel::Database(m) => "Database error: "@ + m,
        ErrorModel::RuleNotFound(id) => "Rule not found with ID: "@ + crate::text::int_decimal(id as int),
        ErrorModel::InvalidCapturePattern(p, r) => "Invalid capture pattern: "@ + p + ", reason: "@ + r,
        ErrorModel::InvalidHandlerConfig(t, r) => "Invalid handler configuration for type "@ + t + ": "@ + r,
        ErrorModel::RuleValidation(r) => "Rule validation failed: "@ + r,
        ErrorModel::Transaction(r) => "Transaction failed: "@ + r,
        ErrorModel::Serialization(m) => "Serialization error: "@ + m,
        ErrorModel::PatternCompilation(m) => "Pattern compilation error: "@ + m,
        ErrorModel::RegexCompilation(m) => "Regex compilation error: "@ + m,
    }
}

impl RequestProcessingError {
    /// A rule validation error with the given reason.
    pub fn rule_validation(reason: &str) -> (r: Self)
        ensures
            r@ == ErrorModel::RuleValidation(reason@),
    {
        RequestProcessingError::RuleValidation { reason: string_of(reason) }
    }

    /// The text that describes the error.
    pub fn message(&self) -> (r: String)
        ensures
            r@ == error_message(self@),
    {
        let mut s = String::new();
        match self {
            RequestProcessingError::Database { message } => {
                push_str(&mut s, "Database error: ");
                push_str(&mut s, message.as_str());
            },
            RequestProcessingError::RuleNotFound { id } => {
                push_str(&mut s, "Rule not found with ID: ");
                push_signed_decimal(&mut s, *id as i64);
            },
            RequestProcessingError::InvalidCapturePattern { pattern, reason } => {
                push_str(&mut s, "Invalid capture pattern: ");
                push_str(&mut s, pattern.as_str());
                push_str(&mut s, ", reason: ");
                push_str(&mut s, reason.as_str());
            },
            RequestProcessingError::InvalidHandlerConfig { handler_type, reason } => {
                push_str(&mut s, "Invalid handler configuration for type ");
                push_str(&mut s, handler_type.as_str());
                push_str(&mut s, ": ");
                push_str(&mut s, reason.as_str());
            },
            RequestProcessingError::RuleValidation { reason } => {
                push_str(&mut s, "Rule validation failed: ");
                push_str(&mut s, reason.as_str());
            },
            RequestProcessingError::Transaction { reason } => {
                push_str(&mut s, "Transaction failed: ");
                push_str(&mut s, reason.as_str());
            },
            RequestProcessingError::Serialization { message } => {
                push_str(&mut s, "Serialization error: ");
                push_str(&mut s, message.as_str());
            },
            RequestProcessingError::PatternCompilation { message } => {
                push_str(&mut s, "Pattern compilation error: ");
                push_str(&mut s, message.as_str());
            },
            RequestProcessingError::RegexCompilation { message } => {
                push_str(&mut s, "Regex compilation error: ");
                push_str(&mut s, message.as_str());
            },
        }
        assert(s@ =~= error_message(self@));
        s
    }
}

} // verus!
