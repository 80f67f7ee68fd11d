use codspeed::cli::exec::RepositoryOverride;
use codspeed::run_environment::circleci::logger::{
    mark_line, CircleCILogger, GroupEvent, Level, LevelFilter, LogAction, LogRecord,
};
use codspeed::run_environment::circleci::oidc::{mint_arguments, mint_token, MintOutput};
use codspeed::run_environment::local::provider::{
    find_git_context, head_branch, Answer, GitRefs, LocalProvider, OverviewError, ParsedRepository,
    Question, RepositoryOverview, Resolution, ResolvedRepository, Stage, FAKE_COMMIT_REF,
};
use codspeed::run_environment::{RepositoryProvider, RunEnvironment, RunEvent};

#[test]
fn fake_commit_hash_ref() {
    assert_eq!(FAKE_COMMIT_REF.len(), 40);
}

/// The answers of git and of the API.
struct World {
    has_repository: Option<bool>,
    unauthenticated: bool,
    refs: Result<&'static str, &'static str>,
    remote: (&'static str, &'static str),
}

const FOUND: World = World {
    has_repository: Some(true),
    unauthenticated: false,
    refs: Ok("c0ffee"),
    remote: ("my-repo", "my-owner"),
};

/// No repository is known, and the remote is `git@github.com:foobar/baz.git`.
const MISSING: World = World { has_repository: None, remote: ("foobar", "baz"), ..FOUND };

fn answer(world: &World, question: &Question) -> Answer {
    match question {
        Question::Refs(_) => Answer::Refs(match world.refs {
            Ok(commit) => Ok(GitRefs {
                ref_: commit.to_owned(),
                head_ref: Some("main".to_owned()),
            }),
            Err(error) => Err(error.to_owned()),
        }),
        Question::Remote(_) => Answer::Remote(Ok(ParsedRepository {
            provider: RepositoryProvider::GitHub,
            owner: world.remote.0.to_owned(),
            name: world.remote.1.to_owned(),
        })),
        Question::Overview { owner, name, provider } => Answer::Overview(if world.unauthenticated {
            Err(OverviewError::Unauthenticated)
        } else {
            Ok(world.has_repository.map(|has_write_access| RepositoryOverview {
                owner: owner.clone(),
                name: name.clone(),
                provider: *provider,
                has_write_access,
            }))
        }),
        Question::Project(name) => Answer::Project(Ok(ParsedRepository {
            provider: RepositoryProvider::GitHub,
            owner: "CodSpeedHQ".to_owned(),
            name: name.clone(),
        })),
    }
}

/// The result, how many questions were asked, and what was shown.
fn resolve(
    world: &World,
    skip_upload: bool,
    asked: Option<RepositoryOverride>,
    root: Option<&str>,
) -> (Result<ResolvedRepository, String>, usize, Vec<String>) {
    let (mut resolution, note) = Resolution::start(skip_upload, asked, root.map(str::to_owned));
    let mut notes: Vec<String> = note.into_iter().collect();
    let mut questions = 0;
    while let Some(question) = resolution.question() {
        questions += 1;
        let (next, note) = resolution.advance(answer(world, &question));
        resolution = next;
        notes.extend(note);
    }
    match resolution.stage {
        Stage::Finished(result) => (result, questions, notes),
        other => panic!("{other:?}"),
    }
}

fn override_of() -> Option<RepositoryOverride> {
    Some(RepositoryOverride {
        owner: "asked".to_owned(),
        repository: "for".to_owned(),
        repository_provider: RepositoryProvider::GitLab,
    })
}

#[test]
fn test_new_with_github_remote_found_on_codspeed() {
    let root = find_git_context("/work/repo");
    assert_eq!(root, "/work/repo/");
    let (resolved, questions, notes) = resolve(&FOUND, false, None, Some(&root));
    assert_eq!(questions, 3);
    assert!(notes.is_empty());
    let provider =
        LocalProvider::with_run_id(resolved.unwrap(), &root, 1, "test-run-id".to_owned());
    let metadata = provider.get_run_environment_metadata();
    assert_eq!(metadata.owner, "my-repo");
    assert_eq!(metadata.repository, "my-owner");
    assert_eq!(metadata.ref_, "c0ffee");
    assert_eq!(metadata.head_ref.as_deref(), Some("main"));
    assert_eq!(metadata.event, RunEvent::Local);
    assert_eq!(metadata.repository_root_path, "/work/repo/");
    assert_eq!(metadata.local_data.unwrap().expected_run_parts_count, 1);
    assert!(metadata.base_ref.is_none() && metadata.sender.is_none());
    let part = provider.get_run_provider_run_part().unwrap();
    assert_eq!(part.run_id, "test-run-id");
    assert_eq!(part.run_part_id, "local-job");
    assert_eq!(part.job_name, "local-job");
    assert!(part.metadata.is_empty());
    assert_eq!(provider.get_commit_hash(), "c0ffee");
    assert_eq!(provider.get_run_environment(), RunEnvironment::Local);
    assert_eq!(provider.get_repository_provider(), RepositoryProvider::GitHub);
    assert_eq!(provider.build_run_part_suffix(vec![1, 2]), vec![1, 2]);
    assert!(LocalProvider::detect());
}

/// Checks what is uploaded about a run of the project repository.
fn is_run_of_the_project(provider: &LocalProvider, root: &str) {
    assert_eq!(provider.get_repository_provider(), RepositoryProvider::GitHub);
    assert_eq!(provider.get_run_environment(), RunEnvironment::Local);
    let metadata = provider.get_run_environment_metadata();
    assert_eq!(metadata.owner, "CodSpeedHQ");
    assert_eq!(metadata.repository, "local-runs");
    assert_eq!(metadata.ref_, FAKE_COMMIT_REF);
    assert!(metadata.head_ref.is_none());
    assert!(metadata.base_ref.is_none() && metadata.sender.is_none());
    assert_eq!(metadata.event, RunEvent::Local);
    assert_eq!(metadata.repository_root_path, root);
    assert_eq!(metadata.local_data.unwrap().expected_run_parts_count, 1);
    let part = provider.get_run_provider_run_part().unwrap();
    assert_eq!(part.run_id, "test-run-id");
    assert_eq!(part.run_part_id, "local-job");
    assert_eq!(part.job_name, "local-job");
    assert!(part.metadata.is_empty());
}

#[test]
fn test_new_falls_back_to_project_repository() {
    let (resolved, _, notes) = resolve(&MISSING, false, None, Some("/w/"));
    assert!(notes[0].starts_with("Repostory foobar/baz not found on CodSpeed."));
    let provider =
        LocalProvider::with_run_id(resolved.unwrap(), "/w/", 1, "test-run-id".to_owned());
    is_run_of_the_project(&provider, "/w/");

    let forbidden = World { has_repository: Some(false), ..MISSING };
    let (resolved, _, notes) = resolve(&forbidden, false, None, Some("/w/"));
    assert_eq!(resolved.unwrap().name, "local-runs");
    assert!(notes[0].starts_with("You are not authorized to create runs on foobar/baz."));
}

#[test]
fn test_new_without_git_repository() {
    let (resolved, questions, notes) = resolve(&MISSING, false, None, None);
    assert_eq!(questions, 1);
    assert_eq!(
        notes,
        vec!["Not inside a git repository, the run will be uploaded to a local-runs CodSpeed project not associated with any repository."]
    );
    let provider =
        LocalProvider::with_run_id(resolved.unwrap(), "/here/", 1, "test-run-id".to_owned());
    is_run_of_the_project(&provider, "/here/");
}

#[test]
fn runs_get_fresh_names() {
    let (resolved, _, _) = resolve(&MISSING, false, None, None);
    let provider = LocalProvider::new(resolved.unwrap(), None, "/here", 2);
    assert_eq!(provider.repository_root_path, "/here");
    assert_eq!(provider.run_id.len(), 36);
    assert_eq!(provider.run_id.as_bytes()[14], b'4');
    assert_ne!(provider.run_id, FAKE_COMMIT_REF);
}

#[test]
fn repository_that_is_asked_for_must_be_writable() {
    let (resolved, questions, _) = resolve(&FOUND, false, override_of(), Some("/w/"));
    let resolved = resolved.unwrap();
    assert_eq!(questions, 2);
    assert_eq!(resolved.owner, "asked");
    assert_eq!(resolved.provider, RepositoryProvider::GitLab);
    assert_eq!(resolved.ref_, "c0ffee");
    let (resolved, questions, _) = resolve(&FOUND, false, override_of(), None);
    assert_eq!(questions, 1);
    assert_eq!(resolved.unwrap().ref_, FAKE_COMMIT_REF);

    let missing = World { has_repository: None, ..FOUND };
    let (error, _, _) = resolve(&missing, false, override_of(), None);
    assert!(error.unwrap_err().starts_with("Explicitly requested repository asked/for not found"));
    let forbidden = World { has_repository: Some(false), ..FOUND };
    let (error, _, _) = resolve(&forbidden, false, override_of(), None);
    assert!(error.unwrap_err().starts_with("You are not authorized to create runs on asked/for."));
    let stranger = World { unauthenticated: true, ..FOUND };
    let (error, _, _) = resolve(&stranger, false, override_of(), None);
    assert_eq!(
        error.unwrap_err(),
        "Invalid token. Run `codspeed auth login` to re-authenticate."
    );
    let broken = World { refs: Err("Failed to get HEAD"), ..FOUND };
    let (error, _, _) = resolve(&broken, false, override_of(), Some("/w/"));
    assert_eq!(error.unwrap_err(), "Failed to get HEAD");
}

#[test]
fn skipped_uploads_need_no_api() {
    let stranger = World { unauthenticated: true, ..FOUND };
    let (resolved, questions, notes) = resolve(&stranger, true, override_of(), Some("/w/"));
    let resolved = resolved.unwrap();
    assert_eq!(questions, 1);
    assert!(notes.is_empty());
    assert_eq!((resolved.owner.as_str(), resolved.name.as_str()), ("local", "local"));
    assert_eq!(resolved.ref_, "c0ffee");
    let broken = World { refs: Err("no commit"), ..FOUND };
    let (resolved, _, _) = resolve(&broken, true, None, Some("/w/"));
    assert_eq!(resolved.unwrap().ref_, FAKE_COMMIT_REF);
    let (resolved, questions, _) = resolve(&broken, true, None, None);
    assert_eq!(questions, 0);
    assert_eq!(resolved.unwrap().ref_, FAKE_COMMIT_REF);
}

#[test]
fn only_branches_have_names() {
    assert_eq!(head_branch(true, Some("main".to_owned())).as_deref(), Some("main"));
    assert!(head_branch(false, Some("HEAD".to_owned())).is_none());
}

#[test]
fn tokens_are_minted_for_an_audience() {
    assert_eq!(
        mint_arguments("codspeed\"io"),
        vec!["run", "oidc", "get", "--claims", "{\"aud\":\"codspeed\\\"io\"}"]
    );
    assert_eq!(
        mint_token(&MintOutput::Succeeded(b" token\n".to_vec())).unwrap(),
        "token"
    );
    assert_eq!(
        mint_token(&MintOutput::Succeeded(b" \n".to_vec())).unwrap_err(),
        "`circleci run oidc get` returned an empty token"
    );
    assert_eq!(
        mint_token(&MintOutput::Succeeded(vec![0xff])).unwrap_err(),
        "The OIDC token minted by CircleCI is not valid UTF-8"
    );
    assert_eq!(
        mint_token(&MintOutput::Failed(b"\xffdenied\n".to_vec())).unwrap_err(),
        "`circleci run oidc get` failed: \u{fffd}denied"
    );
    assert_eq!(
        mint_token(&MintOutput::NotRun("no such file".to_owned())).unwrap_err(),
        "Failed to run the `circleci` CLI: no such file"
    );
}

fn record(group: Option<GroupEvent>) -> LogRecord {
    LogRecord {
        handled: true,
        group,
        json: false,
        announcement: None,
        level: Level::Debug,
    }
}

#[test]
fn log_filter_comes_from_the_environment() {
    assert_eq!(CircleCILogger::new(None).log_level, LevelFilter::Info);
    assert_eq!(CircleCILogger::new(Some("dEbUg")).log_level, LevelFilter::Debug);
    assert_eq!(CircleCILogger::new(Some("off")).log_level, LevelFilter::Off);
    assert_eq!(CircleCILogger::new(Some("loud")).log_level, LevelFilter::Info);
}

#[test]
fn messages_below_the_filter_are_dropped() {
    let mut logger = CircleCILogger::new(Some("info"));
    assert!(matches!(logger.log(record(None), 0), LogAction::Nothing));
    let info = LogRecord { level: Level::Info, ..record(None) };
    assert!(matches!(logger.log(info, 0), LogAction::Message));
    let foreign = LogRecord { handled: false, level: Level::Error, ..record(None) };
    assert!(matches!(logger.log(foreign, 0), LogAction::Nothing));
    let json = LogRecord { json: true, level: Level::Error, ..record(None) };
    assert!(matches!(logger.log(json, 0), LogAction::Nothing));
    let announcement = LogRecord { announcement: Some("done".to_owned()), ..record(None) };
    match logger.log(announcement, 0) {
        LogAction::Line(line) => assert_eq!(console::strip_ansi_codes(&line), "done"),
        other => panic!("{other:?}"),
    }
}

#[test]
fn groups_are_marked_once() {
    let mut logger = CircleCILogger::new(None);
    let start = record(Some(GroupEvent::Start("setup".to_owned())));
    assert!(matches!(logger.log(start, 100), LogAction::Header(name) if name == "setup"));
    let opened = record(Some(GroupEvent::StartOpened("run".to_owned())));
    assert!(matches!(logger.log(opened, 150), LogAction::Header(name) if name == "run"));
    match logger.log(record(Some(GroupEvent::End)), 400) {
        LogAction::Mark { name, elapsed_ms } => {
            assert_eq!(name, "setup");
            assert_eq!(elapsed_ms, 300);
        }
        other => panic!("{other:?}"),
    }
    assert!(matches!(
        logger.log(record(Some(GroupEvent::End)), 500),
        LogAction::Nothing
    ));
    assert_eq!(console::strip_ansi_codes(&mark_line("ok setup", "0.3s")), "ok setup 0.3s");
}
