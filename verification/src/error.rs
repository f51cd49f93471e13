//! The closed set of fatal conditions a rewrite can end in. Every fatal
//! condition aborts the whole invocation: a partially rewritten command line
//! must never reach the real compiler.

use vstd::prelude::*;

verus! {

/// Ghost model of a fatal rewrite condition.
pub ghost enum ErrorView {
    /// The toolchain introspection query failed or was unparsable.
    ToolchainUnavailable,
    /// A required pass, driver or runtime object could not be located; the
    /// logical name that was requested.
    ObjectNotFound(Seq<char>),
    /// The toolchain's major version falls outside every known range for
    /// pass-loading flag shapes.
    UnsupportedVersion(u32),
}

/// A fatal rewrite condition, reported to the single top-level caller.
#[derive(Debug)]
pub enum RewriteError {
    /// The toolchain introspection query failed or was unparsable.
    ToolchainUnavailable,
    /// A required object could not be located, with the logical name.
    ObjectNotFound(String),
    /// The toolchain's major version is unsupported.
    UnsupportedVersion(u32),
}

impl View for RewriteError {
    type V = ErrorView;

    open spec fn view(&self) -> ErrorView {
        match self {
            RewriteError::ToolchainUnavailable => ErrorView::ToolchainUnavailable,
            RewriteError::ObjectNotFound(n) => ErrorView::ObjectNotFound(n@),
            RewriteError::UnsupportedVersion(v) => ErrorView::UnsupportedVersion(*v),
        }
    }
}

} // verus!
