//! Error taxonomy shared by the credential store, the session manager, the hub
//! and the correlator.

use vstd::prelude::*;

verus! {

/// Which configuration artefact an error concerns.
#[derive(Clone, Copy, Debug, PartialEq, Eq, Structural)]
pub enum ConfigKind {
    Client,
    Device,
    Token,
}

/// Which operation on the artefact failed.
#[derive(Clone, Copy, Debug, PartialEq, Eq, Structural)]
pub enum OperationKind {
    Read,
    Write,
    NotFound,
    Serialization,
    Deserialization,
}

/// A local, recoverable configuration error: the affected account is skipped.
#[derive(Clone, Debug, PartialEq, Eq)]
pub struct ConfigError {
    pub kind: ConfigKind,
    pub operation: OperationKind,
    pub detail: Option<String>,
}

impl ConfigError {
    pub fn new(kind: ConfigKind, operation: OperationKind) -> (r: ConfigError)
        ensures
            r.kind == kind,
            r.operation == operation,
            r.detail.is_none(),
    {
        ConfigError { kind, operation, detail: None }
    }

    pub fn with_detail(kind: ConfigKind, operation: OperationKind, detail: String) -> (r: ConfigError)
        ensures
            r.kind == kind,
            r.operation == operation,
            r.detail == Some(detail),
    {
        ConfigError { kind, operation, detail: Some(detail) }
    }
}

/// Why an account's authentication did not reach the active state.
#[derive(Clone, Debug, PartialEq, Eq)]
pub enum LoginError {
    GetConfigError(ConfigError),
    TokenLoginFailed,
    WrongCredential,
    Timeout,
}

/// Adapter registration failure.
#[derive(Clone, Copy, Debug, PartialEq, Eq, Structural)]
pub enum HubError {
    DuplicateName,
}

/// Correlation bookkeeping failure.
#[derive(Clone, Copy, Debug, PartialEq, Eq, Structural)]
pub enum CorrelationError {
    DuplicateCorrelation,
    UnknownCorrelation,
}

} // verus!
