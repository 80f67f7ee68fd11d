//! Runs that are started by a command.
//!
//! Such a run belongs to a repository that is asked for, or to the one that the command is run in,
//! or else to a project without a repository. Which one it is takes questions to git and to the API,
//! each of which is asked only where the answer matters.
use vstd::prelude::*;

use crate::cli::exec::{RepositoryOverride, DEFAULT_REPOSITORY_NAME};
use crate::path::join_path;
use crate::run_environment::{
    LocalData, RepositoryProvider, RunEnvironment, RunEnvironmentMetadata, RunEvent, RunPart,
};
use crate::text::clone_text;

verus! {

/// What stands for a commit where there is none.
pub const FAKE_COMMIT_REF: &'static str = "aaaaaaaaaaaaaaaaaaaaaaaaaaaaaaaaaaaaaaaa";

// ---------------------------------------------------------------------------------------------
// Questions and answers
// ---------------------------------------------------------------------------------------------

/// The commit and the branch of a repository.
#[derive(Debug)]
pub struct GitRefs {
    pub ref_: String,
    pub head_ref: Option<String>,
}

pub struct GitRefsView {
    pub ref_: Seq<char>,
    pub head_ref: Option<Seq<char>>,
}

impl View for GitRefs {
    type V = GitRefsView;

    open spec fn view(&self) -> GitRefsView {
        GitRefsView { ref_: self.ref_@, head_ref: self.head_ref.deep_view() }
    }
}

/// The repository that a remote stands for.
#[derive(Debug)]
pub struct ParsedRepository {
    pub provider: RepositoryProvider,
    pub owner: String,
    pub name: String,
}

pub struct ParsedRepositoryView {
    pub provider: RepositoryProvider,
    pub owner: Seq<char>,
    pub name: Seq<char>,
}

impl View for ParsedRepository {
    type V = ParsedRepositoryView;

    open spec fn view(&self) -> ParsedRepositoryView {
        ParsedRepositoryView { provider: self.provider, owner: self.owner@, name: self.name@ }
    }
}

/// What the API knows of a repository.
#[derive(Debug)]
pub struct RepositoryOverview {
    pub owner: String,
    pub name: String,
    pub provider: RepositoryProvider,
    pub has_write_access: bool,
}

pub struct RepositoryOverviewView {
    pub owner: Seq<char>,
    pub name: Seq<char>,
    pub provider: RepositoryProvider,
    pub has_write_access: bool,
}

impl View for RepositoryOverview {
    type V = RepositoryOverviewView;

    open spec fn view(&self) -> RepositoryOverviewView {
        RepositoryOverviewView {
            owner: self.owner@,
            name: self.name@,
            provider: self.provider,
            has_write_access: self.has_write_access,
        }
    }
}

/// Why the API does not answer.
#[derive(Debug)]
pub enum OverviewError {
    /// The token is not valid.
    Unauthenticated,
    Other(String),
}

/// The text of an error of the API.
pub open spec fn overview_error_text(error: OverviewError) -> Seq<char> {
    match error {
        OverviewError::Unauthenticated =>
            "Invalid token. Run `codspeed auth login` to re-authenticate."@,
        OverviewError::Other(message) => message@,
    }
}

/// A question.
#[derive(Debug)]
pub enum Question {
    /// The commit and the branch of the repository at this path.
    Refs(String),
    /// The repository that the remote `origin` of the repository at this path stands for.
    Remote(String),
    /// What the API knows of a repository.
    Overview { owner: String, name: String, provider: RepositoryProvider },
    /// The project of this name, which is made if it is missing.
    Project(String),
}

/// An answer.
#[derive(Debug)]
pub enum Answer {
    Refs(Result<GitRefs, String>),
    Remote(Result<ParsedRepository, String>),
    Overview(Result<Option<RepositoryOverview>, OverviewError>),
    Project(Result<ParsedRepository, String>),
}

/// How all questions are answered.
pub struct World {
    pub refs: Result<GitRefsView, Seq<char>>,
    pub remote: Result<ParsedRepositoryView, Seq<char>>,
    pub overview: spec_fn(Seq<char>, Seq<char>, RepositoryProvider) -> Result<
        Option<RepositoryOverviewView>,
        Seq<char>,
    >,
    pub project: Result<ParsedRepositoryView, Seq<char>>,
}

/// The view of an answer about commit and branch.
pub open spec fn refs_view(r: Result<GitRefs, String>) -> Result<GitRefsView, Seq<char>> {
    match r {
        Ok(refs) => Ok(refs@),
        Err(message) => Err(message@),
    }
}

/// The view of an answer about a remote or a project.
pub open spec fn repository_view(r: Result<ParsedRepository, String>) -> Result<
    ParsedRepositoryView,
    Seq<char>,
> {
    match r {
        Ok(repository) => Ok(repository@),
        Err(message) => Err(message@),
    }
}

/// The view of an answer of the API.
pub open spec fn overview_view(r: Result<Option<RepositoryOverview>, OverviewError>) -> Result<
    Option<RepositoryOverviewView>,
    Seq<char>,
> {
    match r {
        Ok(Some(overview)) => Ok(Some(overview@)),
        Ok(None) => Ok(None),
        Err(error) => Err(overview_error_text(error)),
    }
}

/// Whether the answer is the one that `world` gives to the question.
pub open spec fn is_answer(world: World, question: Question, answer: Answer) -> bool {
    match (question, answer) {
        (Question::Refs(_), Answer::Refs(r)) => refs_view(r) == world.refs,
        (Question::Remote(_), Answer::Remote(r)) => repository_view(r) == world.remote,
        (Question::Overview { owner, name, provider }, Answer::Overview(r)) => overview_view(r)
            == (world.overview)(owner@, name@, provider),
        (Question::Project(_), Answer::Project(r)) => repository_view(r) == world.project,
        _ => false,
    }
}

/// Whether the answer is of the kind that the question asks for.
pub open spec fn fits(question: Question, answer: Answer) -> bool {
    match question {
        Question::Refs(_) => answer is Refs,
        Question::Remote(_) => answer is Remote,
        Question::Overview { .. } => answer is Overview,
        Question::Project(_) => answer is Project,
    }
}

// ---------------------------------------------------------------------------------------------
// Which repository it is
// ---------------------------------------------------------------------------------------------

/// The repository that a run belongs to.
#[derive(Debug)]
pub struct ResolvedRepository {
    pub provider: RepositoryProvider,
    pub owner: String,
    pub name: String,
    pub ref_: String,
    pub head_ref: Option<String>,
}

pub struct ResolvedRepositoryView {
    pub provider: RepositoryProvider,
    pub owner: Seq<char>,
    pub name: Seq<char>,
    pub refs: GitRefsView,
}

impl View for ResolvedRepository {
    type V = ResolvedRepositoryView;

    open spec fn view(&self) -> ResolvedRepositoryView {
        ResolvedRepositoryView {
            provider: self.provider,
            owner: self.owner@,
            name: self.name@,
            refs: GitRefsView { ref_: self.ref_@, head_ref: self.head_ref.deep_view() },
        }
    }
}

/// The view of what comes of it.
pub open spec fn resolved_view(r: Result<ResolvedRepository, String>) -> Result<
    ResolvedRepositoryView,
    Seq<char>,
> {
    match r {
        Ok(repository) => Ok(repository@),
        Err(message) => Err(message@),
    }
}

/// The commit and the branch where there is no repository.
pub open spec fn fake_refs() -> GitRefsView {
    GitRefsView { ref_: FAKE_COMMIT_REF@, head_ref: None }
}

/// The repository of a run that is not uploaded. That the commit cannot be found out does not
/// matter.
pub open spec fn dummy_repository(in_repository: bool, world: World) -> ResolvedRepositoryView {
    ResolvedRepositoryView {
        provider: RepositoryProvider::GitHub,
        owner: "local"@,
        name: "local"@,
        refs: match world.refs {
            Ok(refs) => if in_repository {
                refs
            } else {
                fake_refs()
            },
            Err(_) => fake_refs(),
        },
    }
}

/// The repository that the API knows, with the commit and the branch.
pub open spec fn known_repository(
    overview: RepositoryOverviewView,
    refs: GitRefsView,
) -> ResolvedRepositoryView {
    ResolvedRepositoryView {
        provider: overview.provider,
        owner: overview.owner,
        name: overview.name,
        refs,
    }
}

/// What to say of a repository that is asked for and that the API does not know.
pub open spec fn unknown_override_text(owner: Seq<char>, name: Seq<char>) -> Seq<char> {
    "Explicitly requested repository "@ + owner + "/"@ + name
        + " not found on CodSpeed. Is the repository enabled on CodSpeed?\nCheck out https://codspeed.io/docs for instructions on how to enable CodSpeed.\n                You can also run without the repository override to automatically detect repositories, and fallback to an isolated CodSpeed run if needed."@
}

/// What to say of a repository that is asked for and that may not be written to.
pub open spec fn forbidden_override_text(owner: Seq<char>, name: Seq<char>) -> Seq<char> {
    "You are not authorized to create runs on "@ + owner + "/"@ + name
        + ".\nAsk a repository to give you write access to the repository.\n                You can also run without the repository override to automatically fallback to an isolated CodSpeed run."@
}

/// What to say of a repository that was found and that the API does not know.
pub open spec fn unknown_detected_text(owner: Seq<char>, name: Seq<char>) -> Seq<char> {
    "Repostory "@ + owner + "/"@ + name
        + " not found on CodSpeed.\nCheck out https://codspeed.io/docs for instructions on how to enable CodSpeed.\nFalling back to an isolated CodSpeed run."@
}

/// What to say of a repository that was found and that may not be written to.
pub open spec fn forbidden_detected_text(owner: Seq<char>, name: Seq<char>) -> Seq<char> {
    "You are not authorized to create runs on "@ + owner + "/"@ + name
        + ".\nTo fix this, ask a repository admin to give you write access to the repository.\nFalling back to an isolated CodSpeed run."@
}

/// What to say outside of any repository.
pub open spec fn no_repository_text() -> Seq<char> {
    "Not inside a git repository, the run will be uploaded to a "@ + DEFAULT_REPOSITORY_NAME@
        + " CodSpeed project not associated with any repository."@
}

/// The project without a repository.
pub open spec fn project_outcome(world: World) -> Result<ResolvedRepositoryView, Seq<char>> {
    match world.project {
        Ok(project) => Ok(
            ResolvedRepositoryView {
                provider: project.provider,
                owner: project.owner,
                name: project.name,
                refs: fake_refs(),
            },
        ),
        Err(message) => Err(message),
    }
}

/// A repository that is asked for and that may be written to.
pub open spec fn override_refs_outcome(
    overview: RepositoryOverviewView,
    in_repository: bool,
    world: World,
) -> Result<ResolvedRepositoryView, Seq<char>> {
    if in_repository {
        match world.refs {
            Ok(refs) => Ok(known_repository(overview, refs)),
            Err(message) => Err(message),
        }
    } else {
        Ok(known_repository(overview, fake_refs()))
    }
}

/// A repository that is asked for.
pub open spec fn override_outcome(
    owner: Seq<char>,
    name: Seq<char>,
    provider: RepositoryProvider,
    in_repository: bool,
    world: World,
) -> Result<ResolvedRepositoryView, Seq<char>> {
    match (world.overview)(owner, name, provider) {
        Err(message) => Err(message),
        Ok(None) => Err(unknown_override_text(owner, name)),
        Ok(Some(overview)) => if overview.has_write_access {
            override_refs_outcome(overview, in_repository, world)
        } else {
            Err(forbidden_override_text(overview.owner, overview.name))
        },
    }
}

/// A repository that was found and that may be written to.
pub open spec fn detected_refs_outcome(overview: RepositoryOverviewView, world: World) -> Result<
    ResolvedRepositoryView,
    Seq<char>,
> {
    match world.refs {
        Ok(refs) => Ok(known_repository(overview, refs)),
        Err(message) => Err(message),
    }
}

/// A repository that was found, or the project where it may not be written to.
pub open spec fn detected_outcome(remote: ParsedRepositoryView, world: World) -> Result<
    ResolvedRepositoryView,
    Seq<char>,
> {
    match (world.overview)(remote.owner, remote.name, remote.provider) {
        Err(message) => Err(message),
        Ok(None) => project_outcome(world),
        Ok(Some(overview)) => if overview.has_write_access {
            detected_refs_outcome(overview, world)
        } else {
            project_outcome(world)
        },
    }
}

/// The repository of the directory that the command is run in.
pub open spec fn remote_outcome(world: World) -> Result<ResolvedRepositoryView, Seq<char>> {
    match world.remote {
        Ok(remote) => detected_outcome(remote, world),
        Err(message) => Err(message),
    }
}

/// The repository that a run belongs to: that of a run that is not uploaded, or the one that is asked
/// for, or the one of the directory that the command is run in, or else the project.
pub open spec fn outcome(
    skip_upload: bool,
    repository_override: Option<RepositoryOverride>,
    in_repository: bool,
    world: World,
) -> Result<ResolvedRepositoryView, Seq<char>> {
    if skip_upload {
        Ok(dummy_repository(in_repository, world))
    } else {
        match repository_override {
            Some(asked) => override_outcome(
                asked.owner@,
                asked.repository@,
                asked.repository_provider,
                in_repository,
                world,
            ),
            None => if in_repository {
                remote_outcome(world)
            } else {
                project_outcome(world)
            },
        }
    }
}

// ---------------------------------------------------------------------------------------------
// How it is found out
// ---------------------------------------------------------------------------------------------

/// How far it is found out which repository it is.
#[derive(Debug)]
pub enum Stage {
    /// It is known, or it failed.
    Finished(Result<ResolvedRepository, String>),
    /// The run is not uploaded; its commit is asked for.
    DummyRefs,
    /// What the API knows of the repository that is asked for, is asked for.
    OverrideOverview(RepositoryOverride),
    /// The commit for the repository that is asked for, is asked for.
    OverrideRefs(RepositoryOverview),
    /// The remote is asked for.
    Remote,
    /// What the API knows of the repository that was found, is asked for.
    DetectedOverview(ParsedRepository),
    /// The commit of the repository that was found is asked for.
    DetectedRefs(RepositoryOverview),
    /// The project is asked for.
    Project,
}

impl Stage {
    /// What comes of it from here on.
    pub open spec fn outcome(self, in_repository: bool, world: World) -> Result<
        ResolvedRepositoryView,
        Seq<char>,
    > {
        match self {
            Stage::Finished(r) => resolved_view(r),
            Stage::DummyRefs => Ok(dummy_repository(in_repository, world)),
            Stage::OverrideOverview(asked) => override_outcome(
                asked.owner@,
                asked.repository@,
                asked.repository_provider,
                in_repository,
                world,
            ),
            Stage::OverrideRefs(overview) => override_refs_outcome(overview@, in_repository, world),
            Stage::Remote => remote_outcome(world),
            Stage::DetectedOverview(remote) => detected_outcome(remote@, world),
            Stage::DetectedRefs(overview) => detected_refs_outcome(overview@, world),
            Stage::Project => project_outcome(world),
        }
    }

    /// How many answers are needed at most.
    pub open spec fn questions_left(self) -> nat {
        match self {
            Stage::Finished(_) => 0,
            Stage::DummyRefs => 1,
            Stage::OverrideOverview(_) => 2,
            Stage::OverrideRefs(_) => 1,
            Stage::Remote => 3,
            Stage::DetectedOverview(_) => 2,
            Stage::DetectedRefs(_) => 1,
            Stage::Project => 1,
        }
    }

    /// Whether no answer of the API is needed.
    pub open spec fn is_offline(self) -> bool {
        self is Finished || self is DummyRefs
    }

    /// Whether the project cannot be what comes of it.
    pub open spec fn keeps_off_project(self) -> bool {
        self is OverrideOverview || self is OverrideRefs || self is Finished
    }
}

/// How it is found out which repository a run belongs to.
#[derive(Debug)]
pub struct Resolution {
    /// The path of the repository that the command is run in, with a slash at its end.
    pub root_path: Option<String>,
    pub stage: Stage,
}

fn fake_commit() -> (r: GitRefs)
    ensures
        r@ == fake_refs(),
{
    GitRefs { ref_: FAKE_COMMIT_REF.to_owned(), head_ref: None }
}

fn known(overview: RepositoryOverview, refs: GitRefs) -> (r: ResolvedRepository)
    ensures
        r@ == known_repository(overview@, refs@),
{
    ResolvedRepository {
        provider: overview.provider,
        owner: overview.owner,
        name: overview.name,
        ref_: refs.ref_,
        head_ref: refs.head_ref,
    }
}

fn dummy(refs: GitRefs) -> (r: ResolvedRepository)
    ensures
        r@ == (ResolvedRepositoryView {
            provider: RepositoryProvider::GitHub,
            owner: "local"@,
            name: "local"@,
            refs: refs@,
        }),
{
    ResolvedRepository {
        provider: RepositoryProvider::GitHub,
        owner: "local".to_owned(),
        name: "local".to_owned(),
        ref_: refs.ref_,
        head_ref: refs.head_ref,
    }
}

fn overview_error(error: OverviewError) -> (r: String)
    ensures
        r@ == overview_error_text(error),
{
    match error {
        OverviewError::Unauthenticated =>
            "Invalid token. Run `codspeed auth login` to re-authenticate.".to_owned(),
        OverviewError::Other(message) => message,
    }
}

fn about_repository(start: &str, owner: &str, name: &str, end: &str) -> (r: String)
    ensures
        r@ == start@ + owner@ + "/"@ + name@ + end@,
{
    let mut text = start.to_owned();
    text.append(owner);
    text.append("/");
    text.append(name);
    text.append(end);
    text
}

/// The path of a repository with a slash at its end.
pub fn find_git_context(root: &str) -> (r: String)
    ensures
        r@ == crate::path::joined_path(root@, seq![]),
{
    proof {
        reveal_strlit("");
        assert(""@ =~= seq![]);
    }
    join_path(root, "")
}

impl Resolution {
    /// Whether the stage asks about the repository that the command is run in only where there is
    /// one.
    pub open spec fn wf(self) -> bool {
        self.stage is DummyRefs || self.stage is OverrideRefs || self.stage is Remote || self.stage
            is DetectedOverview || self.stage is DetectedRefs ==> self.root_path is Some
    }

    /// The first stage. `root_path` is the path of the repository that the command is run in. The
    /// second result is what is shown to the user.
    pub fn start(
        skip_upload: bool,
        repository_override: Option<RepositoryOverride>,
        root_path: Option<String>,
    ) -> (r: (Self, Option<String>))
        ensures
            r.0.root_path == root_path,
            forall|world: World|
                #![trigger r.0.stage.outcome(root_path is Some, world)]
                r.0.stage.outcome(root_path is Some, world) == outcome(
                    skip_upload,
                    repository_override,
                    root_path is Some,
                    world,
                ),
            skip_upload ==> r.0.stage.is_offline(),
            r.0.wf(),
            repository_override is Some ==> r.0.stage.keeps_off_project() || skip_upload,
            if !skip_upload && repository_override is None && root_path is None {
                r.1 matches Some(note) && note@ == no_repository_text()
            } else {
                r.1 is None
            },
    {
        if skip_upload {
            let stage = if root_path.is_some() {
                Stage::DummyRefs
            } else {
                Stage::Finished(Ok(dummy(fake_commit())))
            };
            return (Resolution { root_path, stage }, None);
        }
        match repository_override {
            Some(asked) => (
                Resolution { root_path, stage: Stage::OverrideOverview(asked) },
                None,
            ),
            None => if root_path.is_some() {
                (Resolution { root_path, stage: Stage::Remote }, None)
            } else {
                let mut note =
                    "Not inside a git repository, the run will be uploaded to a ".to_owned();
                note.append(DEFAULT_REPOSITORY_NAME);
                note.append(" CodSpeed project not associated with any repository.");
                (Resolution { root_path, stage: Stage::Project }, Some(note))
            },
        }
    }

    /// The question of the stage.
    pub open spec fn asks(self, question: Question) -> bool {
        match self.stage {
            Stage::Finished(_) => false,
            Stage::DummyRefs => question matches Question::Refs(path) && self.root_path.deep_view()
                == Some(path@),
            Stage::OverrideOverview(asked) => {
                &&& question matches Question::Overview { owner, name, provider }
                &&& owner@ == asked.owner@
                &&& name@ == asked.repository@
                &&& provider == asked.repository_provider
            },
            Stage::OverrideRefs(_) => question matches Question::Refs(path)
                && self.root_path.deep_view() == Some(path@),
            Stage::Remote => question matches Question::Remote(path) && self.root_path.deep_view()
                == Some(path@),
            Stage::DetectedOverview(remote) => {
                &&& question matches Question::Overview { owner, name, provider }
                &&& owner@ == remote.owner@
                &&& name@ == remote.name@
                &&& provider == remote.provider
            },
            Stage::DetectedRefs(_) => question matches Question::Refs(path)
                && self.root_path.deep_view() == Some(path@),
            Stage::Project => question matches Question::Project(name) && name@
                == DEFAULT_REPOSITORY_NAME@,
        }
    }

    /// What is asked next, or `None` where all is known.
    pub fn question(&self) -> (r: Option<Question>)
        requires
            self.wf(),
        ensures
            match r {
                Some(question) => self.asks(question),
                None => self.stage is Finished,
            },
    {
        match &self.stage {
            Stage::Finished(_) => None,
            Stage::OverrideOverview(asked) => Some(
                Question::Overview {
                    owner: asked.owner.clone(),
                    name: asked.repository.clone(),
                    provider: asked.repository_provider,
                },
            ),
            Stage::DetectedOverview(remote) => Some(
                Question::Overview {
                    owner: remote.owner.clone(),
                    name: remote.name.clone(),
                    provider: remote.provider,
                },
            ),
            Stage::Remote => match clone_text(&self.root_path) {
                Some(path) => Some(Question::Remote(path)),
                None => None,
            },
            Stage::Project => Some(Question::Project(DEFAULT_REPOSITORY_NAME.to_owned())),
            _ => match clone_text(&self.root_path) {
                Some(path) => Some(Question::Refs(path)),
                None => None,
            },
        }
    }

    /// The next stage, once the question of this one is answered. The second result is what is shown
    /// to the user.
    pub fn advance(self, answer: Answer) -> (r: (Self, Option<String>))
        requires
            self.wf(),
            exists|question: Question| #[trigger] self.asks(question) && fits(question, answer),
        ensures
            r.0.wf(),
            r.0.root_path == self.root_path,
            r.0.stage.questions_left() < self.stage.questions_left(),
            forall|world: World, question: Question|
                #![trigger is_answer(world, question, answer), self.asks(question)]
                self.asks(question) && is_answer(world, question, answer) ==> r.0.stage.outcome(
                    self.root_path is Some,
                    world,
                ) == self.stage.outcome(self.root_path is Some, world),
            self.stage.is_offline() ==> r.0.stage.is_offline(),
            self.stage.keeps_off_project() ==> r.0.stage.keeps_off_project(),
            note_after(self.stage, answer) == r.1.deep_view(),
    {
        let in_repository: bool = self.root_path.is_some();
        let mut note: Option<String> = None;
        let stage = match (self.stage, answer) {
            (Stage::DummyRefs, Answer::Refs(r)) => {
                let refs = match r {
                    Ok(refs) => refs,
                    Err(_) => fake_commit(),
                };
                Stage::Finished(Ok(dummy(refs)))
            },
            (Stage::OverrideOverview(asked), Answer::Overview(r)) => match r {
                Err(error) => Stage::Finished(Err(overview_error(error))),
                Ok(None) => Stage::Finished(
                    Err(
                        about_repository(
                            "Explicitly requested repository ",
                            asked.owner.as_str(),
                            asked.repository.as_str(),
                            " not found on CodSpeed. Is the repository enabled on CodSpeed?\nCheck out https://codspeed.io/docs for instructions on how to enable CodSpeed.\n                You can also run without the repository override to automatically detect repositories, and fallback to an isolated CodSpeed run if needed.",
                        ),
                    ),
                ),
                Ok(Some(overview)) => if !overview.has_write_access {
                    Stage::Finished(
                        Err(
                            about_repository(
                                "You are not authorized to create runs on ",
                                overview.owner.as_str(),
                                overview.name.as_str(),
                                ".\nAsk a repository to give you write access to the repository.\n                You can also run without the repository override to automatically fallback to an isolated CodSpeed run.",
                            ),
                        ),
                    )
                } else if in_repository {
                    Stage::OverrideRefs(overview)
                } else {
                    Stage::Finished(Ok(known(overview, fake_commit())))
                },
            },
            (Stage::OverrideRefs(overview), Answer::Refs(r)) => match r {
                Ok(refs) => Stage::Finished(Ok(known(overview, refs))),
                Err(message) => Stage::Finished(Err(message)),
            },
            (Stage::Remote, Answer::Remote(r)) => match r {
                Ok(remote) => Stage::DetectedOverview(remote),
                Err(message) => Stage::Finished(Err(message)),
            },
            (Stage::DetectedOverview(remote), Answer::Overview(r)) => match r {
                Err(error) => Stage::Finished(Err(overview_error(error))),
                Ok(None) => {
                    note =
                    Some(
                        about_repository(
                            "Repostory ",
                            remote.owner.as_str(),
                            remote.name.as_str(),
                            " not found on CodSpeed.\nCheck out https://codspeed.io/docs for instructions on how to enable CodSpeed.\nFalling back to an isolated CodSpeed run.",
                        ),
                    );
                    Stage::Project
                },
                Ok(Some(overview)) => if !overview.has_write_access {
                    note =
                    Some(
                        about_repository(
                            "You are not authorized to create runs on ",
                            overview.owner.as_str(),
                            overview.name.as_str(),
                            ".\nTo fix this, ask a repository admin to give you write access to the repository.\nFalling back to an isolated CodSpeed run.",
                        ),
                    );
                    Stage::Project
                } else {
                    Stage::DetectedRefs(overview)
                },
            },
            (Stage::DetectedRefs(overview), Answer::Refs(r)) => match r {
                Ok(refs) => Stage::Finished(Ok(known(overview, refs))),
                Err(message) => Stage::Finished(Err(message)),
            },
            (Stage::Project, Answer::Project(r)) => match r {
                Ok(project) => {
                    let refs = fake_commit();
                    Stage::Finished(
                        Ok(
                            ResolvedRepository {
                                provider: project.provider,
                                owner: project.owner,
                                name: project.name,
                                ref_: refs.ref_,
                                head_ref: refs.head_ref,
                            },
                        ),
                    )
                },
                Err(message) => Stage::Finished(Err(message)),
            },
            (stage, _) => stage,
        };
        (Resolution { root_path: self.root_path, stage }, note)
    }
}

/// What is shown to the user after an answer.
pub open spec fn note_after(stage: Stage, answer: Answer) -> Option<Seq<char>> {
    match (stage, answer) {
        (Stage::DetectedOverview(remote), Answer::Overview(Ok(None))) => Some(
            unknown_detected_text(remote.owner@, remote.name@),
        ),
        (
            Stage::DetectedOverview(_),
            Answer::Overview(Ok(Some(overview))),
        ) => if overview.has_write_access {
            None
        } else {
            Some(forbidden_detected_text(overview.owner@, overview.name@))
        },
        _ => None,
    }
}

// ---------------------------------------------------------------------------------------------
// What holds of it
// ---------------------------------------------------------------------------------------------

/// A run that is not uploaded always has a repository, whatever git and the API answer: that of its
/// commit, or a stand-in.
pub proof fn law_skipped_upload_always_resolves(
    repository_override: Option<RepositoryOverride>,
    in_repository: bool,
    world: World,
)
    ensures
        outcome(true, repository_override, in_repository, world) matches Ok(repository)
            && repository.owner == "local"@ && repository.name == "local"@
            && repository.provider == RepositoryProvider::GitHub,
{
}

/// A run is uploaded to a repository only if the API says that it may be written to; the project is
/// the only exception, and never where a repository is asked for.
pub proof fn law_uploads_need_write_access(
    repository_override: Option<RepositoryOverride>,
    in_repository: bool,
    world: World,
    owner: Seq<char>,
    name: Seq<char>,
    provider: RepositoryProvider,
    repository: ResolvedRepositoryView,
)
    requires
        outcome(false, repository_override, in_repository, world)
            == Ok::<ResolvedRepositoryView, Seq<char>>(repository),
        match repository_override {
            Some(asked) => owner == asked.owner@ && name == asked.repository@ && provider
                == asked.repository_provider,
            None => world.remote is Ok ==> owner == world.remote->Ok_0.owner && name
                == world.remote->Ok_0.name && provider == world.remote->Ok_0.provider,
        },
    ensures
        ({
            ||| (world.overview)(owner, name, provider) matches Ok(Some(overview))
                && overview.has_write_access && repository == known_repository(
                overview,
                repository.refs,
            )
            ||| repository_override is None && project_outcome(world)
                == Ok::<ResolvedRepositoryView, Seq<char>>(repository)
        }),
{
}

/// Which repository is found does not depend on the remote where a repository is asked for, nor on
/// the project.
pub proof fn law_override_comes_first(
    asked: RepositoryOverride,
    in_repository: bool,
    world: World,
    other: World,
)
    requires
        other.refs == world.refs,
        other.overview == world.overview,
    ensures
        outcome(false, Some(asked), in_repository, world) == outcome(
            false,
            Some(asked),
            in_repository,
            other,
        ),
{
}

// ---------------------------------------------------------------------------------------------
// The provider
// ---------------------------------------------------------------------------------------------

#[derive(Debug)]
pub struct LocalProvider {
    pub repository_provider: RepositoryProvider,
    pub owner: String,
    pub repository: String,
    pub ref_: String,
    pub head_ref: Option<String>,
    pub event: RunEvent,
    pub repository_root_path: String,
    pub run_id: String,
    pub expected_run_parts_count: u32,
}

/// Whether a text is a UUID of version 4 in lower case with hyphens.
pub open spec fn is_uuid(text: Seq<char>) -> bool {
    &&& text.len() == 36
    &&& text[14] == '4'
    &&& forall|i: int|
        #![trigger text[i]]
        0 <= i < 36 ==> if i == 8 || i == 13 || i == 18 || i == 23 {
            text[i] == '-'
        } else {
            '0' <= text[i] <= '9' || 'a' <= text[i] <= 'f'
        }
}

/// `uuid::Uuid::new_v4` as a text. Which UUID it is, is random.
#[verifier::external_body]
fn new_uuid() -> (r: String)
    ensures
        is_uuid(r@),
{
    uuid::Uuid::new_v4().to_string()
}

/// The name of the branch, if the head is one and has a name.
pub fn head_branch(is_branch: bool, shorthand: Option<String>) -> (r: Option<String>)
    ensures
        r == (if is_branch {
            shorthand
        } else {
            None
        }),
{
    if is_branch {
        shorthand
    } else {
        None
    }
}

impl LocalProvider {
    /// Whether the values are those that were found.
    pub open spec fn holds(
        self,
        resolved: ResolvedRepositoryView,
        root_path: Seq<char>,
        expected_run_parts_count: u32,
    ) -> bool {
        &&& self.repository_provider == resolved.provider
        &&& self.owner@ == resolved.owner
        &&& self.repository@ == resolved.name
        &&& self.ref_@ == resolved.refs.ref_
        &&& self.head_ref.deep_view() == resolved.refs.head_ref
        &&& self.event is Local
        &&& self.repository_root_path@ == root_path
        &&& self.expected_run_parts_count == expected_run_parts_count
    }

    /// The provider for a repository, with a fresh name for the run. `root_path` is the path of the
    /// repository that the command is run in, if there is one, `current_dir` the directory.
    pub fn new(
        resolved: ResolvedRepository,
        root_path: Option<&str>,
        current_dir: &str,
        expected_run_parts_count: u32,
    ) -> (r: Self)
        ensures
            r.holds(
                resolved@,
                crate::config::text_or(crate::text::text_of(root_path), current_dir@),
                expected_run_parts_count,
            ),
            is_uuid(r.run_id@),
    {
        let path = match root_path {
            Some(path) => path,
            None => current_dir,
        };
        Self::with_run_id(resolved, path, expected_run_parts_count, new_uuid())
    }

    /// The provider for a repository and a run.
    pub fn with_run_id(
        resolved: ResolvedRepository,
        repository_root_path: &str,
        expected_run_parts_count: u32,
        run_id: String,
    ) -> (r: Self)
        ensures
            r.holds(resolved@, repository_root_path@, expected_run_parts_count),
            r.run_id == run_id,
    {
        LocalProvider {
            repository_provider: resolved.provider,
            owner: resolved.owner,
            repository: resolved.name,
            ref_: resolved.ref_,
            head_ref: resolved.head_ref,
            event: RunEvent::Local,
            repository_root_path: repository_root_path.to_owned(),
            run_id,
            expected_run_parts_count,
        }
    }

    /// Whether runs can be started by commands: always.
    pub fn detect() -> (r: bool)
        ensures
            r,
    {
        true
    }

    pub fn get_repository_provider(&self) -> (r: RepositoryProvider)
        ensures
            r == self.repository_provider,
    {
        self.repository_provider
    }

    pub fn get_run_environment(&self) -> (r: RunEnvironment)
        ensures
            r == RunEnvironment::Local,
    {
        RunEnvironment::Local
    }

    /// What is uploaded about the run.
    pub fn get_run_environment_metadata(&self) -> (r: RunEnvironmentMetadata)
        ensures
            r.base_ref is None,
            r.head_ref.deep_view() == self.head_ref.deep_view(),
            r.event == self.event,
            r.local_data == Some(
                LocalData { expected_run_parts_count: self.expected_run_parts_count },
            ),
            r.sender is None,
            r.owner@ == self.owner@,
            r.repository@ == self.repository@,
            r.ref_@ == self.ref_@,
            r.repository_root_path@ == self.repository_root_path@,
    {
        RunEnvironmentMetadata {
            base_ref: None,
            head_ref: clone_text(&self.head_ref),
            event: self.event,
            local_data: Some(
                LocalData { expected_run_parts_count: self.expected_run_parts_count },
            ),
            sender: None,
            owner: self.owner.clone(),
            repository: self.repository.clone(),
            ref_: self.ref_.clone(),
            repository_root_path: self.repository_root_path.clone(),
        }
    }

    /// The part of the run.
    pub fn get_run_provider_run_part(&self) -> (r: Option<RunPart>)
        ensures
            r matches Some(part) && part.run_id@ == self.run_id@ && part.run_part_id@
                == "local-job"@ && part.job_name@ == "local-job"@ && part.metadata@.len() == 0,
    {
        Some(
            RunPart {
                run_id: self.run_id.clone(),
                run_part_id: "local-job".to_owned(),
                job_name: "local-job".to_owned(),
                metadata: Vec::new(),
            },
        )
    }

    pub fn get_commit_hash(&self) -> (r: String)
        ensures
            r@ == self.ref_@,
    {
        self.ref_.clone()
    }

    /// What tells a part of the run apart from others: nothing is added to it, since each run has a
    /// fresh name.
    pub fn build_run_part_suffix<S>(&self, orchestrator_suffix: S) -> (r: S)
        ensures
            r == orchestrator_suffix,
    {
        orchestrator_suffix
    }
}

// ---------------------------------------------------------------------------------------------
// What a run is uploaded with
// ---------------------------------------------------------------------------------------------

/// A repository that is asked for and that may be written to is resolved with the commit and the
/// branch that git gives, and to what the API knows of it. Where git gives none, that is the error.
/// Outside of a git repository it has the stand-in for a commit, and no branch.
pub proof fn law_asked_repository_keeps_commit_and_branch(
    asked: RepositoryOverride,
    world: World,
    overview: RepositoryOverviewView,
)
    requires
        (world.overview)(asked.owner@, asked.repository@, asked.repository_provider) == Ok::<
            _,
            Seq<char>,
        >(Some(overview)),
        overview.has_write_access,
    ensures
        world.refs matches Ok(refs) ==> (outcome(false, Some(asked), true, world) matches Ok(r)
            && r.refs.ref_ == refs.ref_ && r.refs.head_ref == refs.head_ref && r.owner
            == overview.owner && r.name == overview.name && r.provider == overview.provider),
        world.refs matches Err(message) ==> outcome(false, Some(asked), true, world) == Err::<
            ResolvedRepositoryView,
            _,
        >(message),
        outcome(false, Some(asked), false, world) matches Ok(r) && r.refs.ref_
            == "aaaaaaaaaaaaaaaaaaaaaaaaaaaaaaaaaaaaaaaa"@ && r.refs.head_ref is None && r.owner
            == overview.owner && r.name == overview.name && r.provider == overview.provider,
{
}

/// A repository that is asked for is an error where the API does not know it, where it may not be
/// written to, and where the API does not answer. It is never replaced by the project.
pub proof fn law_asked_repository_is_not_replaced(
    asked: RepositoryOverride,
    in_repository: bool,
    world: World,
)
    ensures
        ({
            let known = (world.overview)(asked.owner@, asked.repository@, asked.repository_provider);
            let r = outcome(false, Some(asked), in_repository, world);
            &&& known matches Err(message) ==> r == Err::<ResolvedRepositoryView, _>(message)
            &&& known matches Ok(None) ==> r is Err
            &&& known matches Ok(Some(overview)) ==> !overview.has_write_access ==> r is Err
            &&& r matches Ok(found) ==> known matches Ok(Some(overview)) && overview.has_write_access
                && found.owner == overview.owner && found.name == overview.name && found.provider
                == overview.provider
        }),
{
}

/// The repository that the command is run in is resolved with the commit and the branch that git
/// gives, and to what the API knows of it, if it may be written to.
pub proof fn law_detected_repository_keeps_commit_and_branch(
    world: World,
    remote: ParsedRepositoryView,
    overview: RepositoryOverviewView,
)
    requires
        world.remote == Ok::<_, Seq<char>>(remote),
        (world.overview)(remote.owner, remote.name, remote.provider) == Ok::<_, Seq<char>>(
            Some(overview),
        ),
        overview.has_write_access,
    ensures
        world.refs matches Ok(refs) ==> (outcome(false, None, true, world) matches Ok(r)
            && r.refs.ref_ == refs.ref_ && r.refs.head_ref == refs.head_ref && r.owner
            == overview.owner && r.name == overview.name && r.provider == overview.provider),
        world.refs matches Err(message) ==> outcome(false, None, true, world) == Err::<
            ResolvedRepositoryView,
            _,
        >(message),
{
}

/// A run goes to the project, without a commit or a branch, outside of a git repository, and where
/// the API does not know the repository that was found or does not let it be written to.
pub proof fn law_other_runs_go_to_the_project(
    world: World,
    in_repository: bool,
    remote: ParsedRepositoryView,
)
    requires
        in_repository ==> world.remote == Ok::<_, Seq<char>>(remote) && ((world.overview)(
            remote.owner,
            remote.name,
            remote.provider,
        ) matches Ok(known) && (known matches Some(overview) ==> !overview.has_write_access)),
    ensures
        world.project matches Ok(project) ==> (outcome(false, None, in_repository, world) matches Ok(
            r,
        ) && r.owner == project.owner && r.name == project.name && r.provider == project.provider
            && r.refs.ref_ == "aaaaaaaaaaaaaaaaaaaaaaaaaaaaaaaaaaaaaaaa"@ && r.refs.head_ref is None),
        world.project matches Err(message) ==> outcome(false, None, in_repository, world) == Err::<
            ResolvedRepositoryView,
            _,
        >(message),
{
}

/// That the remote cannot be told, or that the API does not answer about it, is the error of a run
/// in a git repository; it does not go to the project then.
pub proof fn law_failed_detection_is_an_error(world: World)
    ensures
        world.remote matches Err(message) ==> outcome(false, None, true, world) == Err::<
            ResolvedRepositoryView,
            _,
        >(message),
        world.remote matches Ok(remote) ==> ((world.overview)(
            remote.owner,
            remote.name,
            remote.provider,
        ) matches Err(message) ==> outcome(false, None, true, world) == Err::<
            ResolvedRepositoryView,
            _,
        >(message)),
{
}

/// A run that is not uploaded has the commit and the branch that git gives in a git repository, and
/// the stand-in otherwise.
pub proof fn law_skipped_upload_keeps_commit_and_branch(
    repository_override: Option<RepositoryOverride>,
    in_repository: bool,
    world: World,
)
    ensures
        outcome(true, repository_override, in_repository, world) matches Ok(r) && {
            &&& in_repository && world.refs is Ok ==> r.refs.ref_ == world.refs->Ok_0.ref_
                && r.refs.head_ref == world.refs->Ok_0.head_ref
            &&& !in_repository || world.refs is Err ==> r.refs.ref_
                == "aaaaaaaaaaaaaaaaaaaaaaaaaaaaaaaaaaaaaaaa"@ && r.refs.head_ref is None
        },
{
}

/// What git answers about the commit and the branch is what the repository is resolved with, and
/// nothing of what the API knows of the repository changes.
pub proof fn law_answer_of_git_is_taken(
    before: Resolution,
    refs: GitRefs,
    after: (Resolution, Option<String>),
)
    requires
        before.root_path is Some,
        before.stage is DummyRefs || before.stage is OverrideRefs || before.stage is DetectedRefs,
        call_ensures(Resolution::advance, (before, Answer::Refs(Ok(refs))), after),
    ensures
        after.0.stage matches Stage::Finished(Ok(found)) && found.ref_@ == refs.ref_@
            && found.head_ref.deep_view() == refs.head_ref.deep_view() && match before.stage {
            Stage::OverrideRefs(overview) => found.owner@ == overview.owner@ && found.name@
                == overview.name@ && found.provider == overview.provider,
            Stage::DetectedRefs(overview) => found.owner@ == overview.owner@ && found.name@
                == overview.name@ && found.provider == overview.provider,
            _ => found.owner@ == "local"@ && found.name@ == "local"@,
        },
        after.1 is None,
{
    let answer = Answer::Refs(Ok(refs));
    let question = Question::Refs(before.root_path->0);
    let world = World {
        refs: refs_view(Ok(refs)),
        remote: Err(seq![]),
        overview: |owner: Seq<char>, name: Seq<char>, provider: RepositoryProvider| Err(seq![]),
        project: Err(seq![]),
    };
    assert(before.asks(question));
    assert(is_answer(world, question, answer));
    assert(after.0.stage is Finished);
    assert(after.0.stage.outcome(true, world) == before.stage.outcome(true, world));
}

/// The project that is asked for is that of local runs, and the one that the API answers with is what
/// the run goes to, without a commit or a branch.
pub proof fn law_answer_about_the_project_is_taken(
    before: Resolution,
    question: Option<Question>,
    project: ParsedRepository,
    after: (Resolution, Option<String>),
)
    requires
        before.stage is Project,
        call_ensures(Resolution::question, (&before,), question),
        call_ensures(Resolution::advance, (before, Answer::Project(Ok(project))), after),
    ensures
        question matches Some(Question::Project(name)) && name@ == "local-runs"@,
        after.0.stage matches Stage::Finished(Ok(found)) && found.owner@ == project.owner@
            && found.name@ == project.name@ && found.provider == project.provider && found.ref_@
            == "aaaaaaaaaaaaaaaaaaaaaaaaaaaaaaaaaaaaaaaa"@ && found.head_ref is None,
{
    let answer = Answer::Project(Ok(project));
    let world = World {
        refs: Err(seq![]),
        remote: Err(seq![]),
        overview: |owner: Seq<char>, name: Seq<char>, provider: RepositoryProvider| Err(seq![]),
        project: repository_view(Ok(project)),
    };
    assert(before.asks(question->0));
    assert(is_answer(world, question->0, answer));
    assert(after.0.stage is Finished);
    assert(after.0.stage.outcome(before.root_path is Some, world) == before.stage.outcome(
        before.root_path is Some,
        world,
    ));
}

/// The user is told where the run goes to the project although it is run in a git repository or
/// because it is not, and only then.
pub proof fn law_fallback_is_told(
    before: Resolution,
    answer: Answer,
    after: (Resolution, Option<String>),
    skip_upload: bool,
    repository_override: Option<RepositoryOverride>,
    root_path: Option<String>,
    first: (Resolution, Option<String>),
)
    requires
        call_ensures(Resolution::advance, (before, answer), after),
        call_ensures(Resolution::start, (skip_upload, repository_override, root_path), first),
    ensures
        after.1 is Some <==> before.stage is DetectedOverview && (answer matches Answer::Overview(
            Ok(known),
        ) && (known matches Some(overview) ==> !overview.has_write_access)),
        first.1 is Some <==> !skip_upload && repository_override is None && root_path is None,
{
}

/// What is uploaded about a run is what was resolved: its repository, its commit and its branch, the
/// path of the git repository or else the current directory, and how many parts it has.
pub proof fn law_upload_tells_what_was_resolved(
    resolved: ResolvedRepository,
    root_path: Option<&str>,
    current_dir: &str,
    parts: u32,
    provider: &LocalProvider,
    metadata: RunEnvironmentMetadata,
    part: Option<RunPart>,
)
    requires
        call_ensures(LocalProvider::new, (resolved, root_path, current_dir, parts), *provider),
        call_ensures(LocalProvider::get_run_environment_metadata, (provider,), metadata),
        call_ensures(LocalProvider::get_run_provider_run_part, (provider,), part),
    ensures
        provider.repository_provider == resolved.provider,
        metadata.owner@ == resolved.owner@,
        metadata.repository@ == resolved.name@,
        metadata.ref_@ == resolved.ref_@,
        metadata.head_ref.deep_view() == resolved.head_ref.deep_view(),
        metadata.base_ref is None,
        metadata.sender is None,
        metadata.event is Local,
        metadata.local_data matches Some(data) && data.expected_run_parts_count == parts,
        root_path matches Some(path) ==> metadata.repository_root_path@ == path@,
        root_path is None ==> metadata.repository_root_path@ == current_dir@,
        part matches Some(p) && p.run_id@ == provider.run_id@ && p.job_name@ == "local-job"@,
{
}

/// What is asked is about the run: about the repository that is asked for by its own name, about the
/// remote by its own, and git about the directory that the command is run in.
pub proof fn law_questions_are_about_the_run(before: Resolution, question: Option<Question>)
    requires
        before.wf(),
        call_ensures(Resolution::question, (&before,), question),
    ensures
        question is None <==> before.stage is Finished,
        before.stage matches Stage::OverrideOverview(asked) ==> (question matches Some(
            Question::Overview { owner, name, provider },
        ) && owner@ == asked.owner@ && name@ == asked.repository@ && provider
            == asked.repository_provider),
        before.stage matches Stage::DetectedOverview(remote) ==> (question matches Some(
            Question::Overview { owner, name, provider },
        ) && owner@ == remote.owner@ && name@ == remote.name@ && provider == remote.provider),
        question matches Some(Question::Refs(path)) ==> path@ == before.root_path->0@,
        question matches Some(Question::Remote(path)) ==> path@ == before.root_path->0@,
        before.stage is Remote <==> (question matches Some(q) && q is Remote),
{
}

/// The path of a git repository ends with one slash more, or with the one that it had.
pub proof fn law_git_path_ends_with_a_slash(root: &str, r: String)
    requires
        call_ensures(find_git_context, (root,), r),
        root@.len() > 0,
    ensures
        r@.last() == '/',
        root@.last() == '/' ==> r@ == root@,
        root@.last() != '/' ==> r@.drop_last() == root@,
{
    assert(root@ + Seq::<char>::empty() =~= root@);
    assert((root@ + seq!['/'] + Seq::<char>::empty()).drop_last() =~= root@);
}

/// The branch of a run is the name of the head where that is a branch, and there is none otherwise.
pub proof fn law_branch_is_the_name_of_the_head(
    is_branch: bool,
    shorthand: Option<String>,
    r: Option<String>,
)
    requires
        call_ensures(head_branch, (is_branch, shorthand), r),
    ensures
        is_branch ==> r.deep_view() == shorthand.deep_view(),
        !is_branch ==> r is None,
{
}

/// A repository that was asked for and that is unknown, or that may not be written to, is told by
/// its name.
pub proof fn law_refused_repository_is_told(
    asked: RepositoryOverride,
    world: World,
    overview: RepositoryOverviewView,
    in_repository: bool,
)
    ensures
        (world.overview)(asked.owner@, asked.repository@, asked.repository_provider) == Ok::<
            Option<RepositoryOverviewView>,
            Seq<char>,
        >(None) ==> (outcome(false, Some(asked), in_repository, world) matches Err(m) && (
        "Explicitly requested repository "@ + asked.owner@ + "/"@ + asked.repository@
            + " not found on CodSpeed."@).is_prefix_of(m)),
        (world.overview)(asked.owner@, asked.repository@, asked.repository_provider) == Ok::<
            _,
            Seq<char>,
        >(Some(overview)) && !overview.has_write_access ==> (outcome(
            false,
            Some(asked),
            in_repository,
            world,
        ) matches Err(m) && ("You are not authorized to create runs on "@ + overview.owner + "/"@
            + overview.name + "."@).is_prefix_of(m)),
{
    reveal_strlit(" not found on CodSpeed.");
    reveal_strlit(".");
    reveal_strlit(
        " not found on CodSpeed. Is the repository enabled on CodSpeed?\nCheck out https://codspeed.io/docs for instructions on how to enable CodSpeed.\n                You can also run without the repository override to automatically detect repositories, and fallback to an isolated CodSpeed run if needed.",
    );
    reveal_strlit(
        ".\nAsk a repository to give you write access to the repository.\n                You can also run without the repository override to automatically fallback to an isolated CodSpeed run.",
    );
    let unknown = "Explicitly requested repository "@ + asked.owner@ + "/"@ + asked.repository@
        + " not found on CodSpeed."@;
    let forbidden = "You are not authorized to create runs on "@ + overview.owner + "/"@
        + overview.name + "."@;
    let a = unknown_override_text(asked.owner@, asked.repository@);
    let b = forbidden_override_text(overview.owner, overview.name);
    assert(a.subrange(0, unknown.len() as int) =~= unknown);
    assert(b.subrange(0, forbidden.len() as int) =~= forbidden);
}

} // verus!
