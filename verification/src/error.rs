//! Error type and process exit codes.
//!
//! Exit codes follow the `buzz-cli` convention so the importer composes with
//! the same tooling: `0` ok, `1` input error, `2` network/relay, `3` auth,
//! `4` other, `5` write conflict (NIP-33 last-write-wins).

use vstd::prelude::*;

verus! {

/// Process exit codes, matching the `buzz-cli` convention.
#[derive(Debug, Clone, Copy, PartialEq, Eq, Structural)]
pub enum ExitCode {
    Success,
    Input,
    Network,
    Auth,
    Other,
    WriteConflict,
}

/// The numeric process status of an exit code.
pub open spec fn spec_exit_status(code: ExitCode) -> u8 {
    match code {
        ExitCode::Success => 0,
        ExitCode::Input => 1,
        ExitCode::Network => 2,
        ExitCode::Auth => 3,
        ExitCode::Other => 4,
        ExitCode::WriteConflict => 5,
    }
}

impl ExitCode {
    /// The numeric process status of this exit code.
    pub fn status(&self) -> (n: u8)
        ensures
            n == spec_exit_status(*self),
    {
        match self {
            ExitCode::Success => 0,
            ExitCode::Input => 1,
            ExitCode::Network => 2,
            ExitCode::Auth => 3,
            ExitCode::Other => 4,
            ExitCode::WriteConflict => 5,
        }
    }
}

/// Top-level importer error.
#[derive(Debug)]
pub enum ImportError {
    Input(String),
    Network(String),
    Auth(String),
    WriteConflict(String),
    Other(String),
}

/// The exit code an error maps to.
pub open spec fn spec_exit_code(e: ImportError) -> ExitCode {
    match e {
        ImportError::Input(_) => ExitCode::Input,
        ImportError::Network(_) => ExitCode::Network,
        ImportError::Auth(_) => ExitCode::Auth,
        ImportError::WriteConflict(_) => ExitCode::WriteConflict,
        ImportError::Other(_) => ExitCode::Other,
    }
}

/// The human-readable rendering of an error, as printed by the program.
pub open spec fn spec_error_message(e: ImportError) -> Seq<char> {
    match e {
        ImportError::Input(m) => "input error: "@ + m@,
        ImportError::Network(m) => "network/relay error: "@ + m@,
        ImportError::Auth(m) => "auth error: "@ + m@,
        ImportError::WriteConflict(m) => "write conflict (NIP-33 LWW): "@ + m@,
        ImportError::Other(m) => m@,
    }
}

impl View for ImportError {
    /// The exit code the error maps to (one per variant) and its message.
    type V = (ExitCode, Seq<char>);

    open spec fn view(&self) -> (ExitCode, Seq<char>) {
        match self {
            ImportError::Input(m) => (ExitCode::Input, m@),
            ImportError::Network(m) => (ExitCode::Network, m@),
            ImportError::Auth(m) => (ExitCode::Auth, m@),
            ImportError::WriteConflict(m) => (ExitCode::WriteConflict, m@),
            ImportError::Other(m) => (ExitCode::Other, m@),
        }
    }
}

/// The view of a result whose error is an import error.
pub open spec fn result_view<T, V>(r: Result<T, ImportError>, f: spec_fn(T) -> V) -> Result<
    V,
    (ExitCode, Seq<char>),
> {
    match r {
        Ok(t) => Ok(f(t)),
        Err(e) => Err(e@),
    }
}

impl ImportError {
    /// Map the error to its process exit code.
    pub fn exit_code(&self) -> (c: ExitCode)
        ensures
            c == spec_exit_code(*self),
    {
        match self {
            ImportError::Input(_) => ExitCode::Input,
            ImportError::Network(_) => ExitCode::Network,
            ImportError::Auth(_) => ExitCode::Auth,
            ImportError::WriteConflict(_) => ExitCode::WriteConflict,
            ImportError::Other(_) => ExitCode::Other,
        }
    }

    /// Render the error as the program prints it.
    pub fn message(&self) -> (m: String)
        ensures
            m@ == spec_error_message(*self),
    {
        match self {
            ImportError::Input(s) => String::from_str("input error: ").concat(s.as_str()),
            ImportError::Network(s) => String::from_str("network/relay error: ").concat(s.as_str()),
            ImportError::Auth(s) => String::from_str("auth error: ").concat(s.as_str()),
            ImportError::WriteConflict(s) => String::from_str("write conflict (NIP-33 LWW): ").concat(
                s.as_str(),
            ),
            ImportError::Other(s) => s.clone(),
        }
    }
}

/// Every error exits with a non-zero status, distinct error kinds exit with
/// distinct statuses, and only success exits with status 0.
pub proof fn lemma_exit_codes_distinct(a: ImportError, b: ImportError)
    ensures
        spec_exit_status(spec_exit_code(a)) != 0,
        spec_exit_status(ExitCode::Success) == 0,
        spec_exit_code(a) != spec_exit_code(b) ==> spec_exit_status(spec_exit_code(a))
            != spec_exit_status(spec_exit_code(b)),
{
}

} // verus!
