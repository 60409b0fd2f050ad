use vstd::prelude::*;

verus! {

/// Process exit codes for todork.
///
/// - `Success` (0): scan completed and at least one annotation was found.
/// - `NotFound` (1): scan completed but no annotations were found.
/// - `Error` (2): a fatal error occurred (bad arguments, I/O failure, etc.).
#[derive(Debug, Clone, Copy, PartialEq, Eq, Structural)]
pub enum ExitCode {
    /// Annotations were found.
    Success,
    /// No annotations were found.
    NotFound,
    /// A fatal error occurred.
    Error,
}

impl ExitCode {
    /// The number the process exits with.
    pub open spec fn spec_code(self) -> u8 {
        match self {
            ExitCode::Success => 0,
            ExitCode::NotFound => 1,
            ExitCode::Error => 2,
        }
    }

    /// The number the process exits with: 0, 1 or 2.
    pub fn code(&self) -> (c: u8)
        ensures
            c == self.spec_code(),
    {
        match self {
            ExitCode::Success => 0,
            ExitCode::NotFound => 1,
            ExitCode::Error => 2,
        }
    }
}

} // verus!
