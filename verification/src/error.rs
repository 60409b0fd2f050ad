use vstd::prelude::*;

use crate::text::{concat, push_str};

verus! {

/// All errors that todork can produce.
#[derive(Debug)]
pub enum TodorkError {
    /// An input/output failure, with the system's description of it.
    Io(String),
    /// A failure while walking the directory tree.
    Walk(String),
    /// A glob given to `--include` or `--exclude` that does not compile.
    InvalidGlob { pattern: String, reason: String },
    /// A tag given to `--tags` that is not a non-empty identifier.
    InvalidTag(String),
    /// The tag set or the detail pattern could not be compiled into a matcher.
    Pattern(String),
}

/// The message shown for an error.
pub open spec fn error_message(e: TodorkError) -> Seq<char> {
    match e {
        TodorkError::Io(s) => "I/O error: "@ + s@,
        TodorkError::Walk(s) => "File walk error: "@ + s@,
        TodorkError::InvalidGlob { pattern, reason } =>
            "Invalid glob pattern '"@ + pattern@ + "': "@ + reason@,
        TodorkError::InvalidTag(s) =>
            "Invalid tag '"@ + s@ + "': tags must be non-empty ASCII identifiers"@,
        TodorkError::Pattern(s) => "Invalid pattern: "@ + s@,
    }
}

impl TodorkError {
    /// The message shown for this error.
    pub fn message(&self) -> (r: String)
        ensures
            r@ == error_message(*self),
    {
        match self {
            TodorkError::Io(s) => concat("I/O error: ", s.as_str()),
            TodorkError::Walk(s) => concat("File walk error: ", s.as_str()),
            TodorkError::InvalidGlob { pattern, reason } => {
                let mut r = concat("Invalid glob pattern '", pattern.as_str());
                push_str(&mut r, "': ");
                push_str(&mut r, reason.as_str());
                r
            },
            TodorkError::InvalidTag(s) => {
                let mut r = concat("Invalid tag '", s.as_str());
                push_str(&mut r, "': tags must be non-empty ASCII identifiers");
                r
            },
            TodorkError::Pattern(s) => concat("Invalid pattern: ", s.as_str()),
        }
    }
}

} // verus!
