//! The error and determinism taxonomy.
//!
//! Every failure that crosses the sandbox boundary carries a classification:
//! deterministic failures replay identically on every node and are permanent;
//! unknown failures depend on the local environment and may be retried; for
//! blockchain calls a third class signals a possible chain reorganization.

use vstd::prelude::*;
use vstd::string::StringExecFns;

verus! {

/// How an unrecovered error is to be treated by the block-processing
/// pipeline: a deterministic failure is permanent and consensus-visible,
/// anything else is eligible for a local retry.
#[derive(PartialEq, Eq, Structural, Clone, Copy, Debug)]
pub enum DeterminismLevel {
    /// The same outcome is reproduced by any correct replay.
    Deterministic,
    /// The outcome may depend on the executing node's environment.
    Unimplemented,
}

/// A failure that replays identically on every node: schema validation,
/// division by zero, malformed input, an unknown ABI function, a missing
/// template, a critical log, an explicit abort, or an exhausted gas budget.
#[derive(Debug)]
pub struct DeterministicHostError {
    /// Descriptive message, including the offending input where one exists.
    pub message: String,
}

impl DeterministicHostError {
    /// Builds a deterministic error around a fixed message.
    pub fn new(msg: &str) -> (r: DeterministicHostError)
        ensures
            r.message@ == msg@,
    {
        DeterministicHostError { message: String::from_str(msg) }
    }

    /// Builds a deterministic error whose message quotes the offending
    /// input between a fixed prefix and suffix.
    pub fn with_input(prefix: &str, input: &str, suffix: &str) -> (r: DeterministicHostError)
        ensures
            r.message@ == prefix@ + input@ + suffix@,
    {
        let mut m = String::from_str(prefix);
        m.append(input);
        m.append(suffix);
        DeterministicHostError { message: m }
    }
}

/// A failure leaving a host operation, tagged with its determinism class.
#[derive(Debug)]
pub enum HostExportError {
    /// Environment-dependent failure; eligible for local retry.
    Unknown(String),
    /// Failure that any correct replay reproduces; never retried.
    Deterministic(String),
}

impl HostExportError {
    /// Wraps a deterministic error, keeping its message.
    pub fn from_deterministic(e: DeterministicHostError) -> (r: HostExportError)
        ensures
            r matches HostExportError::Deterministic(m) && m@ == e.message@,
    {
        HostExportError::Deterministic(e.message)
    }

    /// The determinism class the block-processing pipeline acts on.
    pub fn determinism_level(&self) -> (r: DeterminismLevel)
        ensures
            r == DeterminismLevel::Deterministic <==> self is Deterministic,
    {
        match self {
            HostExportError::Deterministic(_) => DeterminismLevel::Deterministic,
            HostExportError::Unknown(_) => DeterminismLevel::Unimplemented,
        }
    }
}

/// Classification of a failed blockchain contract call.
#[derive(Debug)]
pub enum EthereumCallError {
    /// The node's answer may have been invalidated by a chain
    /// reorganization; retry after reorg-aware re-validation.
    PossibleReorg(String),
    /// Any other adapter failure; retryable at the caller's discretion.
    Unknown(String),
    /// A locally detected authoring bug (bad ABI, bad signature); permanent.
    DeterministicHostError(DeterministicHostError),
}

} // verus!
