//! Application errors and the structured body a client receives for them.
use vstd::prelude::*;

use crate::openrouter::ChatProviderError;

verus! {

#[verifier::external_type_specification]
#[verifier::external_body]
pub struct ExJsonValue(serde_json::Value);

/// The `error` object of an error response.
#[derive(Clone, Debug)]
pub struct ApiErrorDetail {
    pub code: String,
    pub message: String,
    pub details: Option<serde_json::Value>,
}

/// The body of an error response: `{"error": {...}}`.
#[derive(Debug)]
pub struct ApiErrorBody {
    pub error: ApiErrorDetail,
}

/// Everything a request can fail with.
#[derive(Debug)]
pub enum AppError {
    Validation(String),
    NotFound(String),
    InvalidJson(String),
    /// A database failure, with the database's own description of it.
    Database(String),
    Provider(ChatProviderError),
    Config(String),
}

impl AppError {
    /// A provider error inside is well formed.
    pub open spec fn wf(&self) -> bool {
        self matches AppError::Provider(e) ==> e.wf()
    }

    /// The machine-readable code of the error.
    pub open spec fn error_code(&self) -> Seq<char> {
        match self {
            AppError::Validation(_) => "validation_error"@,
            AppError::NotFound(_) => "not_found"@,
            AppError::InvalidJson(_) => "invalid_json"@,
            AppError::Database(_) => "database_error"@,
            AppError::Provider(_) => "provider_error"@,
            AppError::Config(_) => "configuration_error"@,
        }
    }

    /// The message a client sees: the database's and the provider's own texts stay inside.
    pub open spec fn public_text(&self) -> Seq<char> {
        match self {
            AppError::Validation(m) => m@,
            AppError::NotFound(m) => m@,
            AppError::InvalidJson(m) => m@,
            AppError::Database(_) => "database operation failed"@,
            AppError::Provider(e) => e.public_text(),
            AppError::Config(m) => m@,
        }
    }

    /// The HTTP status of the response for the error.
    pub open spec fn status(&self) -> u16 {
        match self {
            AppError::Validation(_) => 400,
            AppError::InvalidJson(_) => 400,
            AppError::NotFound(_) => 404,
            AppError::Provider(_) => 502,
            AppError::Database(_) => 500,
            AppError::Config(_) => 500,
        }
    }

    /// Whether the error is well formed.
    pub fn is_well_formed(&self) -> (r: bool)
        ensures
            r == self.wf(),
    {
        match self {
            AppError::Provider(e) => e.is_well_formed(),
            _ => true,
        }
    }

    /// A validation error with `message`.
    pub fn validation(message: &str) -> (e: AppError)
        ensures
            e matches AppError::Validation(m) && m@ == message@,
    {
        AppError::Validation(String::from_str(message))
    }

    /// A not-found error with `message`.
    pub fn not_found(message: &str) -> (e: AppError)
        ensures
            e matches AppError::NotFound(m) && m@ == message@,
    {
        AppError::NotFound(String::from_str(message))
    }

    /// A malformed-body error, carrying the text that describes the rejection.
    pub fn invalid_json(body_text: String) -> (e: AppError)
        ensures
            e matches AppError::InvalidJson(m) && m@ == body_text@,
    {
        AppError::InvalidJson(body_text)
    }

    /// A database error, carrying the database's description of it.
    pub fn database(description: String) -> (e: AppError)
        ensures
            e matches AppError::Database(m) && m@ == description@,
    {
        AppError::Database(description)
    }

    /// A configuration error with `message`.
    pub fn config(message: &str) -> (e: AppError)
        ensures
            e matches AppError::Config(m) && m@ == message@,
    {
        AppError::Config(String::from_str(message))
    }

    /// The structured detail a client receives.
    pub fn detail(&self) -> (d: ApiErrorDetail)
        requires
            self.wf(),
        ensures
            d.code@ == self.error_code(),
            d.message@ == self.public_text(),
            d.details is None,
    {
        match self {
            AppError::Validation(message) => ApiErrorDetail {
                code: String::from_str("validation_error"),
                message: message.clone(),
                details: None,
            },
            AppError::NotFound(message) => ApiErrorDetail {
                code: String::from_str("not_found"),
                message: message.clone(),
                details: None,
            },
            AppError::InvalidJson(message) => ApiErrorDetail {
                code: String::from_str("invalid_json"),
                message: message.clone(),
                details: None,
            },
            AppError::Database(_) => ApiErrorDetail {
                code: String::from_str("database_error"),
                message: String::from_str("database operation failed"),
                details: None,
            },
            AppError::Provider(error) => ApiErrorDetail {
                code: String::from_str("provider_error"),
                message: error.public_message(),
                details: None,
            },
            AppError::Config(message) => ApiErrorDetail {
                code: String::from_str("configuration_error"),
                message: message.clone(),
                details: None,
            },
        }
    }

    /// The HTTP status code of the response for the error.
    pub fn status_code(&self) -> (s: u16)
        ensures
            s == self.status(),
    {
        match self {
            AppError::Validation(_) | AppError::InvalidJson(_) => 400,
            AppError::NotFound(_) => 404,
            AppError::Provider(_) => 502,
            AppError::Database(_) | AppError::Config(_) => 500,
        }
    }

    /// The body of the response for the error.
    pub fn body(&self) -> (b: ApiErrorBody)
        requires
            self.wf(),
        ensures
            b.error.code@ == self.error_code(),
            b.error.message@ == self.public_text(),
            b.error.details is None,
    {
        ApiErrorBody { error: self.detail() }
    }
}

/// What a client is told never depends on the database's description of a
/// failure, nor on the provider's body or transport error: two errors that
/// differ only there read the same.
pub proof fn lemma_public_text_hides_details(
    a: String,
    b: String,
    status: u16,
)
    ensures
        AppError::Database(a).public_text() == AppError::Database(b).public_text(),
        AppError::Provider(ChatProviderError::Request(a)).public_text() == AppError::Provider(
            ChatProviderError::Request(b),
        ).public_text(),
        AppError::Provider(ChatProviderError::InvalidResponse(a)).public_text()
            == AppError::Provider(ChatProviderError::InvalidResponse(b)).public_text(),
        AppError::Provider(ChatProviderError::Upstream { status, body: a }).public_text()
            == AppError::Provider(ChatProviderError::Upstream { status, body: b }).public_text(),
{
}

/// Errors the client caused answer with a `4xx` status; errors of the server,
/// its database, configuration or provider answer with a `5xx` status.
pub proof fn lemma_status_classes(e: AppError)
    ensures
        (e is Validation || e is InvalidJson || e is NotFound) ==> 400 <= e.status() < 500,
        (e is Database || e is Config || e is Provider) ==> 500 <= e.status() < 600,
{
}

impl From<ChatProviderError> for AppError {
    fn from(error: ChatProviderError) -> (e: AppError) {
        AppError::Provider(error)
    }
}

impl vstd::std_specs::convert::FromSpecImpl<ChatProviderError> for AppError {
    open spec fn obeys_from_spec() -> bool {
        true
    }

    open spec fn from_spec(error: ChatProviderError) -> AppError {
        AppError::Provider(error)
    }
}

} // verus!
