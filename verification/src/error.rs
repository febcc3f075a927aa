use vstd::prelude::*;
use vstd::string::*;

verus! {

/// Errors that the library reports to its callers.  Each variant carries the
/// user-facing message.
#[derive(Debug)]
pub enum AppError {
    /// A request broke a business rule.
    Validation(String),
    /// A request carried more rows than one call may write.
    PayloadTooLarge(String),
    /// Too many security-sensitive attempts from one source.
    RateLimited(String),
    /// An operation ran past its deadline or was cancelled.
    Timeout(String),
    /// A session token was missing, unknown or expired.
    Unauthorized(String),
    /// The database refused or failed an operation; the text is its report.
    Database(String),
}

/// Result type used throughout the library.
pub type AppResult<T> = Result<T, AppError>;

impl AppError {
    /// The user-facing message carried by the error.
    pub open spec fn message(self) -> Seq<char> {
        match self {
            AppError::Validation(m) => m@,
            AppError::PayloadTooLarge(m) => m@,
            AppError::RateLimited(m) => m@,
            AppError::Timeout(m) => m@,
            AppError::Unauthorized(m) => m@,
            AppError::Database(m) => m@,
        }
    }

    /// Returns the user-facing message.
    pub fn to_message(&self) -> (r: String)
        ensures
            r@ == self.message(),
    {
        match self {
            AppError::Validation(m) => m.clone(),
            AppError::PayloadTooLarge(m) => m.clone(),
            AppError::RateLimited(m) => m.clone(),
            AppError::Timeout(m) => m.clone(),
            AppError::Unauthorized(m) => m.clone(),
            AppError::Database(m) => m.clone(),
        }
    }
}

/// `e` is a validation error with message `m`.
pub open spec fn is_validation(e: AppError, m: Seq<char>) -> bool {
    e matches AppError::Validation(x) && x@ == m
}

/// A validation error with the given message.
pub fn validation(message: &str) -> (r: AppError)
    ensures
        is_validation(r, message@),
{
    AppError::Validation(String::from_str(message))
}

/// The message for a database operation stopped because the client went
/// away.
pub open spec fn cancelled_message() -> Seq<char> {
    "客户端连接已断开，数据库操作已安全取消"@
}

/// The message for a database operation stopped at its deadline.
pub open spec fn deadline_message() -> Seq<char> {
    "数据库操作超过 30 秒，已安全中断"@
}

/// Reports a database failure that came from interrupting the statement
/// (`interrupted`) as a timeout: a cancelled one as cancelled, else as past
/// its deadline.  Any other result is kept as it is.
pub fn map_interrupted_result<T>(result: AppResult<T>, interrupted: bool, cancelled: bool) -> (r: AppResult<T>)
    ensures
        (interrupted && result matches Err(AppError::Database(_))) ==> (r matches Err(AppError::Timeout(m))
            && m@ == (if cancelled {
            cancelled_message()
        } else {
            deadline_message()
        })),
        !(interrupted && result matches Err(AppError::Database(_))) ==> r == result,
{
    match result {
        Err(AppError::Database(m)) => if interrupted {
            if cancelled {
                Err(AppError::Timeout(String::from_str("客户端连接已断开，数据库操作已安全取消")))
            } else {
                Err(AppError::Timeout(String::from_str("数据库操作超过 30 秒，已安全中断")))
            }
        } else {
            Err(AppError::Database(m))
        },
        other => other,
    }
}

} // verus!
