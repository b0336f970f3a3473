//! What can go wrong while a stream is set up.

use vstd::prelude::*;
use vstd::string::*;
use crate::compress_type::CompressType;
use crate::tools::Role;

verus! {

/// The failures that this crate tells apart.
#[derive(Debug)]
pub enum CompressError {
    /// No utility whose executable was found serves the format in the role.
    ToolUnavailable { kind: CompressType, role: Role },
    /// The system did not start the utility at `path`, for the reason `cause`.
    SpawnFailed { path: String, cause: String },
}

/// The contents of a [`CompressError`].
pub enum CompressErrorView {
    ToolUnavailable { kind: CompressType, role: Role },
    SpawnFailed { path: Seq<char>, cause: Seq<char> },
}

impl CompressErrorView {
    /// The text that describes the failure.
    pub open spec fn message(self) -> Seq<char> {
        match self {
            CompressErrorView::ToolUnavailable { kind, role } => "Can not find program to "@
                + role.spec_verb() + " "@ + kind.spec_name() + " files"@,
            CompressErrorView::SpawnFailed { path, cause } => "Error executing pipe command '"@
                + path + "': "@ + cause,
        }
    }
}

impl View for CompressError {
    type V = CompressErrorView;

    open spec fn view(&self) -> CompressErrorView {
        match self {
            CompressError::ToolUnavailable { kind, role } => CompressErrorView::ToolUnavailable {
                kind: *kind,
                role: *role,
            },
            CompressError::SpawnFailed { path, cause } => CompressErrorView::SpawnFailed {
                path: path@,
                cause: cause@,
            },
        }
    }
}

impl CompressError {
    /// The failure to start the utility at `path`, with the reason that the
    /// system gave.
    pub fn spawn_failed(path: &str, cause: &str) -> (r: Self)
        ensures
            r@ == (CompressErrorView::SpawnFailed { path: path@, cause: cause@ }),
    {
        CompressError::SpawnFailed { path: path.to_owned(), cause: cause.to_owned() }
    }

    /// The text that describes the failure.
    pub fn message(&self) -> (r: String)
        ensures
            r@ == self@.message(),
    {
        match self {
            CompressError::ToolUnavailable { kind, role } => {
                let mut r = String::from_str("Can not find program to ");
                r.append(role.verb());
                r.append(" ");
                r.append(kind.name());
                r.append(" files");
                r
            },
            CompressError::SpawnFailed { path, cause } => {
                let mut r = String::from_str("Error executing pipe command '");
                r.append(path.as_str());
                r.append("': ");
                r.append(cause.as_str());
                r
            },
        }
    }

    /// The text that describes the failure.
    pub fn to_string(&self) -> (r: String)
        ensures
            r@ == self@.message(),
    {
        self.message()
    }
}

} // verus!
