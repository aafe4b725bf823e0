//! The application-wide error type and its constructors.
use vstd::prelude::*;
use vstd::string::StringExecFns;

verus! {

/// Error of one pipeline stage. `recoverable` tells whether the analysis can go on;
/// `retryable` (AI only) tells whether the same request may be sent again.
#[derive(Debug, Clone)]
pub enum AppError {
    Scan { message: String, recoverable: bool },
    Static { message: String, recoverable: bool },
    Ai { message: String, recoverable: bool, retryable: bool },
    Cache { message: String, recoverable: bool },
    Export { message: String, recoverable: bool },
    Config { message: String, recoverable: bool },
}

pub type AppResult<T> = Result<T, AppError>;

impl AppError {
    /// The message carried by any variant.
    pub open spec fn message_view(&self) -> Seq<char> {
        match self {
            AppError::Scan { message, .. } => message@,
            AppError::Static { message, .. } => message@,
            AppError::Ai { message, .. } => message@,
            AppError::Cache { message, .. } => message@,
            AppError::Export { message, .. } => message@,
            AppError::Config { message, .. } => message@,
        }
    }

    /// The `recoverable` flag of any variant.
    pub open spec fn is_recoverable(&self) -> bool {
        match self {
            AppError::Scan { recoverable, .. } => *recoverable,
            AppError::Static { recoverable, .. } => *recoverable,
            AppError::Ai { recoverable, .. } => *recoverable,
            AppError::Cache { recoverable, .. } => *recoverable,
            AppError::Export { recoverable, .. } => *recoverable,
            AppError::Config { recoverable, .. } => *recoverable,
        }
    }

    /// The category tag of the variant, as shown to the user.
    pub open spec fn category_view(&self) -> Seq<char> {
        match self {
            AppError::Scan { .. } => "scan error: "@,
            AppError::Static { .. } => "static analysis error: "@,
            AppError::Ai { .. } => "ai error: "@,
            AppError::Cache { .. } => "cache error: "@,
            AppError::Export { .. } => "export error: "@,
            AppError::Config { .. } => "config error: "@,
        }
    }

    pub fn scan(message: String) -> (e: AppError)
        ensures
            e == (AppError::Scan { message, recoverable: true }),
    {
        AppError::Scan { message, recoverable: true }
    }

    pub fn static_analysis(message: String) -> (e: AppError)
        ensures
            e == (AppError::Static { message, recoverable: true }),
    {
        AppError::Static { message, recoverable: true }
    }

    pub fn cache(message: String) -> (e: AppError)
        ensures
            e == (AppError::Cache { message, recoverable: true }),
    {
        AppError::Cache { message, recoverable: true }
    }

    pub fn export(message: String) -> (e: AppError)
        ensures
            e == (AppError::Export { message, recoverable: false }),
    {
        AppError::Export { message, recoverable: false }
    }

    pub fn config(message: String) -> (e: AppError)
        ensures
            e == (AppError::Config { message, recoverable: false }),
    {
        AppError::Config { message, recoverable: false }
    }

    /// The human-readable form: the category followed by the message.
    pub fn describe(&self) -> (s: String)
        ensures
            s@ == self.category_view() + self.message_view(),
    {
        let (prefix, message) = match self {
            AppError::Scan { message, .. } => ("scan error: ", message),
            AppError::Static { message, .. } => ("static analysis error: ", message),
            AppError::Ai { message, .. } => ("ai error: ", message),
            AppError::Cache { message, .. } => ("cache error: ", message),
            AppError::Export { message, .. } => ("export error: ", message),
            AppError::Config { message, .. } => ("config error: ", message),
        };
        let mut s = String::from_str(prefix);
        s.append(message.as_str());
        s
    }
}

} // verus!
