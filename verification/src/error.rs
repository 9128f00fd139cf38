//! The errors that a request can end in, and how the errors of the parts
//! map onto them.

use vstd::prelude::*;
use vstd::string::*;
use crate::compiler::CompilerError;
use crate::executor::ExecutorError;
use crate::storage::StorageError;

verus! {

/// What can be wrong with an entity of the domain.
#[derive(Debug)]
pub enum CoreError {
    Serialization(String),
    InvalidRuleTemplate(String),
    InvalidPolicy(String),
    VersionNotFound(String),
    RuleTemplateNotFound(String),
    PolicyNotFound(String),
}

impl CoreError {
    /// The error as one line of text.
    pub open spec fn text(self) -> Seq<char> {
        match self {
            CoreError::Serialization(m) => "Serialization error: "@ + m@,
            CoreError::InvalidRuleTemplate(m) => "Invalid rule template: "@ + m@,
            CoreError::InvalidPolicy(m) => "Invalid policy: "@ + m@,
            CoreError::VersionNotFound(m) => "Version not found: "@ + m@,
            CoreError::RuleTemplateNotFound(m) => "Rule template not found: "@ + m@,
            CoreError::PolicyNotFound(m) => "Policy not found: "@ + m@,
        }
    }

    /// The error as one line of text: its kind, then its detail.
    pub fn to_string(&self) -> (s: String)
        ensures
            s@ == self.text(),
    {
        match self {
            CoreError::Serialization(m) => String::from_str("Serialization error: ").concat(
                m.as_str(),
            ),
            CoreError::InvalidRuleTemplate(m) => String::from_str(
                "Invalid rule template: ",
            ).concat(m.as_str()),
            CoreError::InvalidPolicy(m) => String::from_str("Invalid policy: ").concat(
                m.as_str(),
            ),
            CoreError::VersionNotFound(m) => String::from_str("Version not found: ").concat(
                m.as_str(),
            ),
            CoreError::RuleTemplateNotFound(m) => String::from_str(
                "Rule template not found: ",
            ).concat(m.as_str()),
            CoreError::PolicyNotFound(m) => String::from_str("Policy not found: ").concat(
                m.as_str(),
            ),
        }
    }
}

/// Why a request failed.
#[derive(Debug)]
pub enum ApiError {
    NotFound(String),
    BadRequest(String),
    Internal(String),
    Compilation(String),
    Execution(String),
}

impl ApiError {
    /// The detail carried by the error.
    pub open spec fn detail(self) -> Seq<char> {
        match self {
            ApiError::NotFound(m) => m@,
            ApiError::BadRequest(m) => m@,
            ApiError::Internal(m) => m@,
            ApiError::Compilation(m) => m@,
            ApiError::Execution(m) => m@,
        }
    }

    /// The error as one line of text.
    pub open spec fn text(self) -> Seq<char> {
        match self {
            ApiError::NotFound(m) => "Not found: "@ + m@,
            ApiError::BadRequest(m) => "Bad request: "@ + m@,
            ApiError::Internal(m) => "Internal error: "@ + m@,
            ApiError::Compilation(m) => "Compilation error: "@ + m@,
            ApiError::Execution(m) => "Execution error: "@ + m@,
        }
    }

    /// The HTTP status that answers the error.
    pub open spec fn spec_status_code(self) -> u16 {
        match self {
            ApiError::NotFound(_) => 404,
            ApiError::BadRequest(_) => 400,
            ApiError::Compilation(_) => 400,
            ApiError::Execution(_) => 500,
            ApiError::Internal(_) => 500,
        }
    }

    /// The error as one line of text: its kind, then its detail.
    pub fn to_string(&self) -> (s: String)
        ensures
            s@ == self.text(),
    {
        match self {
            ApiError::NotFound(m) => String::from_str("Not found: ").concat(m.as_str()),
            ApiError::BadRequest(m) => String::from_str("Bad request: ").concat(m.as_str()),
            ApiError::Internal(m) => String::from_str("Internal error: ").concat(m.as_str()),
            ApiError::Compilation(m) => String::from_str("Compilation error: ").concat(
                m.as_str(),
            ),
            ApiError::Execution(m) => String::from_str("Execution error: ").concat(m.as_str()),
        }
    }

    /// The HTTP status that answers the error: 404 where something was not
    /// found, 400 for a bad request and for rule source that was turned
    /// down, 500 otherwise.
    pub fn status_code(&self) -> (code: u16)
        ensures
            code == self.spec_status_code(),
    {
        match self {
            ApiError::NotFound(_) => 404,
            ApiError::BadRequest(_) => 400,
            ApiError::Compilation(_) => 400,
            ApiError::Execution(_) => 500,
            ApiError::Internal(_) => 500,
        }
    }

    /// The machine-readable name of the error's kind.
    pub fn error_type(&self) -> (name: &'static str)
        ensures
            name@ == match *self {
                ApiError::NotFound(_) => "not_found"@,
                ApiError::BadRequest(_) => "bad_request"@,
                ApiError::Compilation(_) => "compilation_error"@,
                ApiError::Execution(_) => "execution_error"@,
                ApiError::Internal(_) => "internal_error"@,
            },
    {
        match self {
            ApiError::NotFound(_) => "not_found",
            ApiError::BadRequest(_) => "bad_request",
            ApiError::Compilation(_) => "compilation_error",
            ApiError::Execution(_) => "execution_error",
            ApiError::Internal(_) => "internal_error",
        }
    }
}

/// Whether `api` is the request error for a storage error: what was not
/// found stays so, what exists already is a bad request, and anything else
/// is internal, with the storage error's text as its detail.
pub open spec fn from_storage(err: StorageError, api: ApiError) -> bool {
    match err {
        StorageError::NotFound(m) => api is NotFound && api.detail() == m@,
        StorageError::AlreadyExists(m) => api is BadRequest && api.detail() == m@,
        _ => api is Internal && api.detail() == err.text(),
    }
}

/// The conversion allocates its detail, so it is stated as a relation in
/// the contract of `from`, not as a function.
impl vstd::std_specs::convert::FromSpecImpl<StorageError> for ApiError {
    open spec fn obeys_from_spec() -> bool {
        false
    }

    open spec fn from_spec(err: StorageError) -> ApiError {
        arbitrary()
    }
}

impl From<StorageError> for ApiError {
    fn from(err: StorageError) -> (api: ApiError)
        ensures
            from_storage(err, api),
    {
        match err {
            StorageError::NotFound(m) => ApiError::NotFound(m),
            StorageError::AlreadyExists(m) => ApiError::BadRequest(m),
            other => ApiError::Internal(other.to_string()),
        }
    }
}

/// The conversion allocates its detail, so it is stated as a relation in
/// the contract of `from`, not as a function.
impl vstd::std_specs::convert::FromSpecImpl<CompilerError> for ApiError {
    open spec fn obeys_from_spec() -> bool {
        false
    }

    open spec fn from_spec(err: CompilerError) -> ApiError {
        arbitrary()
    }
}

impl From<CompilerError> for ApiError {
    fn from(err: CompilerError) -> (api: ApiError)
        ensures
            api is Compilation,
            api.detail() == err.prefix() + err.detail(),
    {
        ApiError::Compilation(err.to_string())
    }
}

/// The conversion allocates its detail, so it is stated as a relation in
/// the contract of `from`, not as a function.
impl vstd::std_specs::convert::FromSpecImpl<ExecutorError> for ApiError {
    open spec fn obeys_from_spec() -> bool {
        false
    }

    open spec fn from_spec(err: ExecutorError) -> ApiError {
        arbitrary()
    }
}

impl From<ExecutorError> for ApiError {
    fn from(err: ExecutorError) -> (api: ApiError)
        ensures
            api is Execution,
            api.detail() == err.text(),
    {
        ApiError::Execution(err.to_string())
    }
}

} // verus!
