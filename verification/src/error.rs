//! Host-visible error kinds for procedure execution, their stable integer
//! codes, and the canonical answer shape a script returns.

use crate::json::JsonValue;
use vstd::prelude::*;

verus! {

/// The kinds of host-side failure a procedure run can produce.
///
/// `Code` carries an exit code chosen by the script itself; every other
/// variant maps to a fixed small code, except `Timeout`, which maps to 143.
#[derive(Debug, Clone, Copy, PartialEq, Eq, Structural)]
pub enum JsError {
    Unknown,
    Javascript,
    Engine,
    BoundryLayerSerDe,
    Tokio,
    FileSystem,
    Code(i32),
    Timeout,
    NotValidProcedureName,
}

/// The stable integer code of each error kind, as a mathematical value.
pub open spec fn spec_code_num(e: JsError) -> int {
    match e {
        JsError::Unknown => 1,
        JsError::Javascript => 2,
        JsError::Engine => 3,
        JsError::BoundryLayerSerDe => 4,
        JsError::Tokio => 5,
        JsError::FileSystem => 6,
        JsError::NotValidProcedureName => 7,
        JsError::Code(code) => code as int,
        JsError::Timeout => 143,
    }
}

impl JsError {
    /// The stable integer code reported to callers for this error kind.
    pub fn as_code_num(&self) -> (code: i32)
        ensures
            code as int == spec_code_num(*self),
    {
        match self {
            JsError::Unknown => 1,
            JsError::Javascript => 2,
            JsError::Engine => 3,
            JsError::BoundryLayerSerDe => 4,
            JsError::Tokio => 5,
            JsError::FileSystem => 6,
            JsError::NotValidProcedureName => 7,
            JsError::Code(code) => *code,
            JsError::Timeout => 143,
        }
    }
}

/// The canonical shape of a script's answer: a plain error message, an
/// error code with a message, or a result value.
#[derive(Debug)]
pub enum ErrorValue {
    Error(String),
    ErrorCode(i32, String),
    Result(JsonValue),
}

/// Turns the raw answer-slot contents into the procedure's result.
///
/// A missing answer counts as `Result(Null)`. A plain error message becomes
/// a `Javascript` failure, an error code becomes `Code`, and a result value
/// is handed through for the caller to decode.
pub fn unwrap_known_error(error_value: Option<ErrorValue>) -> (r: Result<
    JsonValue,
    (JsError, String),
>)
    ensures
        match error_value {
            None => r matches Ok(v) && v is Null,
            Some(ErrorValue::Error(e)) => r matches Err((k, m)) && k == JsError::Javascript && m@
                == e@,
            Some(ErrorValue::ErrorCode(c, e)) => r matches Err((k, m)) && k == JsError::Code(c)
                && m@ == e@,
            Some(ErrorValue::Result(v)) => r == Ok::<JsonValue, (JsError, String)>(v),
        },
{
    match error_value {
        None => Ok(JsonValue::Null),
        Some(ErrorValue::Error(error)) => Err((JsError::Javascript, error)),
        Some(ErrorValue::ErrorCode(code, message)) => Err((JsError::Code(code), message)),
        Some(ErrorValue::Result(value)) => Ok(value),
    }
}

} // verus!
