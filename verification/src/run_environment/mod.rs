//! Where the runner runs.
use vstd::prelude::*;

pub mod circleci;
pub mod local;

verus! {

#[derive(Debug, Clone, Copy, PartialEq, Eq, Structural)]
pub enum RunEnvironment {
    GithubActions,
    GitlabCi,
    Circleci,
    Buildkite,
    Local,
}

/// Who hosts a repository.
#[derive(Debug, Clone, Copy, PartialEq, Eq, Structural)]
pub enum RepositoryProvider {
    GitHub,
    GitLab,
    /// No one: it stands for a project without a repository.
    Project,
}

/// What made a run start.
#[derive(Debug, Clone, Copy, PartialEq, Eq, Structural)]
pub enum RunEvent {
    /// A command that was entered.
    Local,
}

/// What is uploaded about a run that was started by a command.
#[derive(Debug, Clone, Copy, PartialEq, Eq, Structural)]
pub struct LocalData {
    pub expected_run_parts_count: u32,
}

/// What is uploaded about a run.
#[derive(Debug)]
pub struct RunEnvironmentMetadata {
    pub base_ref: Option<String>,
    pub head_ref: Option<String>,
    pub event: RunEvent,
    pub local_data: Option<LocalData>,
    pub sender: Option<String>,
    pub owner: String,
    pub repository: String,
    pub ref_: String,
    pub repository_root_path: String,
}

/// A part of a run.
#[derive(Debug)]
pub struct RunPart {
    pub run_id: String,
    pub run_part_id: String,
    pub job_name: String,
    /// Names and values that tell it apart from other parts.
    pub metadata: Vec<(String, String)>,
}

} // verus!
