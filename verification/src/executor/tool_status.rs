//! Whether the tools that executors need are there.
use vstd::prelude::*;

verus! {

/// Whether a tool is installed.
#[derive(Debug, PartialEq, Eq)]
pub enum ToolInstallStatus {
    Installed { version: String },
    /// Another version than is needed, or one that cannot be told.
    IncorrectVersion { version: String, message: String },
    NotInstalled,
}

/// A tool and whether it is installed.
#[derive(Debug, PartialEq, Eq)]
pub struct ToolStatus {
    pub tool_name: String,
    pub status: ToolInstallStatus,
}

} // verus!
