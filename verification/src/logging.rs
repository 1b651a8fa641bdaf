//! How the request log classifies a finished request by its response status.

use crate::rate_limiter::TOO_MANY_REQUESTS;
use vstd::prelude::*;

verus! {

/// The class of a finished request, as the log reports it.
pub enum LogClass {
    /// Refused by the rate limiter (logged as a warning, noted as rate limited).
    RateLimited,
    /// Any other 4xx status (logged as a warning).
    ClientError,
    /// A 5xx status (logged as an error).
    ServerError,
    /// Anything else (logged as information).
    Normal,
}

/// The severity a class is logged with.
pub enum LogLevel {
    Info,
    Warn,
    Error,
}

/// The class of a response with status `status`.
pub open spec fn spec_classify(status: u16) -> LogClass {
    if status == TOO_MANY_REQUESTS {
        LogClass::RateLimited
    } else if 400 <= status < 500 {
        LogClass::ClientError
    } else if 500 <= status < 600 {
        LogClass::ServerError
    } else {
        LogClass::Normal
    }
}

/// The class of a response with status `status`.
pub fn classify_status(status: u16) -> (c: LogClass)
    ensures
        c == spec_classify(status),
{
    if status == TOO_MANY_REQUESTS {
        LogClass::RateLimited
    } else if 400 <= status && status < 500 {
        LogClass::ClientError
    } else if 500 <= status && status < 600 {
        LogClass::ServerError
    } else {
        LogClass::Normal
    }
}

/// The severity of a class.
pub fn level_of(c: &LogClass) -> (l: LogLevel)
    ensures
        l == match *c {
            LogClass::RateLimited => LogLevel::Warn,
            LogClass::ClientError => LogLevel::Warn,
            LogClass::ServerError => LogLevel::Error,
            LogClass::Normal => LogLevel::Info,
        },
{
    match c {
        LogClass::RateLimited => LogLevel::Warn,
        LogClass::ClientError => LogLevel::Warn,
        LogClass::ServerError => LogLevel::Error,
        LogClass::Normal => LogLevel::Info,
    }
}

} // verus!
