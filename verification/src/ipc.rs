//! How commands answer the frontend, and what some of them are asked.
use vstd::prelude::*;

verus! {

/// `String::from` copies a borrowed text.
pub assume_specification<'a>[ <String as From<&'a str>>::from ](s: &str) -> (text: String)
    ensures
        text@ == s@,
;

/// `From::from` of a type into itself hands the value on.
pub assume_specification<Val>[ <Val as std::convert::From<Val>>::from ](value: Val) -> (same: Val)
    ensures
        same == value,
;

/// The answer to a command: data on success, else a message and a code.
#[derive(Debug, Clone)]
pub struct IpcResult<T> {
    pub success: bool,
    pub data: Option<T>,
    pub error: Option<String>,
    pub code: Option<String>,
}

impl<T> IpcResult<T> {
    /// The command succeeded with this data and nothing else.
    pub open spec fn succeeds(self, data: T) -> bool {
        self.success && self.data == Some(data) && self.error is None && self.code is None
    }

    /// The command failed with this message and code, and there is no data.
    pub open spec fn fails(self, error: Seq<char>, code: Seq<char>) -> bool {
        &&& !self.success
        &&& self.data is None
        &&& self.error is Some
        &&& self.error->0@ == error
        &&& self.code is Some
        &&& self.code->0@ == code
    }

    /// The answer of a command that succeeded.
    pub fn success(data: T) -> (result: Self)
        ensures
            result.succeeds(data),
    {
        IpcResult { success: true, data: Some(data), error: None, code: None }
    }

    /// The answer of a command that failed.
    pub fn error<E: Into<String>, C: Into<String>>(error: E, code: C) -> (result: Self)
        ensures
            !result.success,
            result.data is None,
            result.error is Some,
            call_ensures(<E as Into<String>>::into, (error,), result.error->0),
            result.code is Some,
            call_ensures(<C as Into<String>>::into, (code,), result.code->0),
    {
        IpcResult { success: false, data: None, error: Some(error.into()), code: Some(code.into()) }
    }
}

/// Is the window visible?
#[derive(Debug, Clone)]
pub struct SetVisibilityRequest {
    pub is_visible: bool,
}

/// How terminals that nothing shows any more are looked for.
#[derive(Debug, Clone)]
pub struct OrphanDetectionSettings {
    pub enabled: bool,
    pub timeout_minutes: Option<u64>,
}

/// A renderer that shows a terminal, or no longer does.
#[derive(Debug, Clone)]
pub struct RendererRefRequest {
    pub terminal_id: String,
    pub renderer_id: String,
}

/// The version of the data to go back to.
#[derive(Debug, Clone)]
pub struct RollbackRequest {
    pub version: String,
}

}
