use codspeed::cli::exec::{
    build_orchestrator_config, config_with_url, ensure_exec_commands_runnable, execute_config, run,
    BenchmarkTarget, ExecArgs, OrchestratorConfig, PollResultsOptions, ProjectConfig,
    RepositoryOverride, WalltimeExecutionArgs, DEFAULT_REPOSITORY_NAME,
};
use codspeed::cli::experimental::ExperimentalArgs;
use codspeed::cli::profile::{ProfileArgs, ProfileCommands};
use codspeed::cli::shared::ExecAndRunSharedArgs;
use codspeed::cli::{
    build_api_client, load_config, Authentication, Cli, Commands, InternalCommands, RunArgs,
    SamplyArgs, CONFIG_NAME_WARNING,
};
use codspeed::config::{CodSpeedConfig, PersistedConfig};
use codspeed::run_environment::RepositoryProvider;
use codspeed::runner_mode::RunnerMode;

fn exec_target(command: &[&str], name: Option<&str>) -> BenchmarkTarget {
    BenchmarkTarget::Exec {
        command: command.iter().map(|s| s.to_string()).collect(),
        name: name.map(str::to_string),
        walltime_args: Default::default(),
    }
}

#[test]
fn rejects_missing_or_empty_executable() {
    assert!(ensure_exec_commands_runnable(&[exec_target(&[], Some("a"))]).is_err());
    assert!(ensure_exec_commands_runnable(&[exec_target(&["   "], Some("a"))]).is_err());
    let err = ensure_exec_commands_runnable(&[exec_target(&[""], Some("bench"))]).unwrap_err();
    assert!(err.contains("bench"), "{err}");
}

#[test]
fn accepts_runnable_command_with_empty_argument() {
    assert!(ensure_exec_commands_runnable(&[exec_target(&["grep", ""], None)]).is_ok());
}

#[test]
fn ignores_entrypoint_targets() {
    let target = BenchmarkTarget::Entrypoint {
        command: String::new(),
        name: None,
    };
    assert!(ensure_exec_commands_runnable(&[target]).is_ok());
}

#[test]
fn first_empty_command_is_reported() {
    let err = ensure_exec_commands_runnable(&[
        exec_target(&["ls"], Some("a")),
        exec_target(&["\t"], None),
        exec_target(&[], Some("c")),
    ])
    .unwrap_err();
    assert!(err.contains("`<unnamed>`"), "{err}");
}

const NO_FLAGS: ExperimentalArgs = ExperimentalArgs {
    experimental_fair_sched: false,
    experimental_cycle_estimation: false,
    experimental_exclude_allocations: false,
};

fn shared(upload_url: Option<&str>) -> ExecAndRunSharedArgs {
    ExecAndRunSharedArgs {
        upload_url: upload_url.map(str::to_owned),
        token: None,
        base: Some("base-run".to_owned()),
        repository: None,
        working_directory: None,
        profile_folder: None,
        go_runner_version: None,
        perf_unwinding_mode: None,
        simulation_tool: None,
        walltime_profiler: None,
        skip_upload: true,
        skip_run: false,
        skip_setup: false,
        allow_empty: true,
        show_full_output: false,
        cycle_estimation: true,
        exclude_allocations: false,
        simulation_track_subprocess: false,
        experimental: ExperimentalArgs { experimental_fair_sched: true, ..NO_FLAGS },
    }
}

fn exec_args(upload_url: Option<&str>, command: &[&str]) -> ExecArgs {
    ExecArgs {
        shared: shared(upload_url),
        walltime_args: WalltimeExecutionArgs {
            max_rounds: Some(10),
            ..WalltimeExecutionArgs::default()
        },
        name: Some("bench".to_owned()),
        command: command.iter().map(|s| s.to_string()).collect(),
    }
}

fn modes() -> Result<Vec<RunnerMode>, String> {
    Ok(vec![RunnerMode::Walltime])
}

#[test]
fn given_arguments_win_over_the_project() {
    let project = ProjectConfig {
        walltime: Some(WalltimeExecutionArgs {
            warmup_time: Some("1s".to_owned()),
            max_rounds: Some(99),
            ..WalltimeExecutionArgs::default()
        }),
    };
    let merged = exec_args(None, &["ls"]).merge_with_project_config(Some(&project));
    assert_eq!(merged.walltime_args.warmup_time.as_deref(), Some("1s"));
    assert_eq!(merged.walltime_args.max_rounds, Some(10));
    assert_eq!(merged.walltime_args.min_rounds, None);
    let merged = exec_args(None, &["ls"]).merge_with_project_config(None);
    assert_eq!(merged.walltime_args.warmup_time, None);
}

fn config(url: Option<&str>) -> Result<OrchestratorConfig, String> {
    build_orchestrator_config(
        exec_args(url, &["ls"]),
        exec_target(&["ls"], None),
        PollResultsOptions::new(false, None),
        modes(),
        None,
        true,
        "callgrind",
    )
}

#[test]
fn upload_url_is_parsed() {
    let built = config(Some("HTTPS://Example.com/a/../b")).unwrap();
    assert_eq!(built.upload_url, "https://example.com/b");
    assert!(built.enable_profiler);
    assert!(built.fair_sched);
    assert!(built.skip_upload);
    assert!(built.instruments.mongodb.is_none());
    assert!(built.extra_env.is_empty());
    assert_eq!(built.simulation_tool, "callgrind");
    let mut args = exec_args(None, &["ls"]);
    args.shared.simulation_tool = Some("tracegrind".to_owned());
    let asked = run(args, None, modes(), None, false, "callgrind").unwrap();
    assert_eq!(asked.simulation_tool, "tracegrind");
    assert_eq!(built.targets.len(), 1);
    assert_eq!(config(None).unwrap().upload_url, "https://api.codspeed.io/upload");
    let error = config(Some("nowhere")).unwrap_err();
    assert!(error.starts_with("Invalid upload URL: nowhere, "), "{error}");
}

fn with_url(
    modes: Result<Vec<RunnerMode>, String>,
    repository: Option<Result<RepositoryOverride, String>>,
    url: Result<String, String>,
) -> Result<OrchestratorConfig, String> {
    let mut shared = shared(Some("u"));
    shared.repository = repository.as_ref().map(|_| "o/r".to_owned());
    config_with_url(
        shared,
        exec_target(&["ls"], None),
        PollResultsOptions::new(false, None),
        modes,
        repository,
        false,
        "callgrind",
        "u".to_owned(),
        url,
    )
}

#[test]
fn errors_come_in_order() {
    let bad = || Err("bad".to_owned());
    let repository_error = || Some(Err("repo".to_owned()));
    assert_eq!(
        with_url(Err("modes".to_owned()), repository_error(), bad()).unwrap_err(),
        "modes"
    );
    assert_eq!(
        with_url(modes(), repository_error(), bad()).unwrap_err(),
        "Invalid upload URL: u, bad"
    );
    assert_eq!(
        with_url(modes(), repository_error(), Ok("x".to_owned())).unwrap_err(),
        "repo"
    );
    let repository = RepositoryOverride {
        owner: "o".to_owned(),
        repository: "r".to_owned(),
        repository_provider: RepositoryProvider::GitLab,
    };
    let built = with_url(modes(), Some(Ok(repository)), Ok("x".to_owned())).unwrap();
    assert_eq!(built.upload_url, "x");
    assert_eq!(built.repository_override.unwrap().repository_provider, RepositoryProvider::GitLab);
}

#[test]
fn commands_are_run_with_what_was_merged() {
    let built = run(exec_args(None, &["ls", "-l"]), None, modes(), None, false, "callgrind").unwrap();
    assert_eq!(built.poll_results_options.base_run_id.as_deref(), Some("base-run"));
    assert!(!built.poll_results_options.output_json);
    match &built.targets[0] {
        BenchmarkTarget::Exec { command, name, walltime_args } => {
            assert_eq!(*command, ["ls", "-l"]);
            assert_eq!(name.as_deref(), Some("bench"));
            assert_eq!(walltime_args.max_rounds, Some(10));
        }
        BenchmarkTarget::Entrypoint { .. } => panic!("not a command"),
    }
    let error = run(exec_args(None, &[" "]), None, modes(), None, false, "callgrind").unwrap_err();
    assert!(error.starts_with("Empty command for exec benchmark target `bench`."), "{error}");
    assert!(execute_config(built).is_ok());
    assert_eq!(DEFAULT_REPOSITORY_NAME, "local-runs");
}

#[test]
fn experimental_flags_are_warned_about() {
    assert!(NO_FLAGS.active_flags().is_empty());
    assert!(NO_FLAGS.warn_if_active("!").is_none());
    assert!(NO_FLAGS.warn_if_deprecated("!").is_empty());
    let flags = ExperimentalArgs {
        experimental_fair_sched: true,
        experimental_cycle_estimation: false,
        experimental_exclude_allocations: true,
    };
    assert_eq!(
        flags.active_flags(),
        vec!["--experimental-fair-sched", "--experimental-exclude-allocations"]
    );
    let warning = console::strip_ansi_codes(&flags.warn_if_active("!").unwrap()).to_string();
    assert_eq!(
        warning,
        "\n  ! Experimental flags enabled: --experimental-fair-sched, --experimental-exclude-allocations\n  These may change or be removed without notice.\n  Share feedback at https://github.com/CodSpeedHQ/codspeed/issues.\n"
    );
    let lines = flags.warn_if_deprecated("!");
    assert_eq!(lines.len(), 1);
    assert_eq!(
        console::strip_ansi_codes(&lines[0]),
        "  ! --experimental-exclude-allocations has no effect: allocation exclusion is now controlled by --exclude-allocations."
    );
    assert_eq!(flags.deprecated_flags().len(), 1);
}

#[test]
fn styles_follow_the_setting_of_colours() {
    console::set_colors_enabled(true);
    let flags = ExperimentalArgs { experimental_fair_sched: true, ..NO_FLAGS };
    let coloured = flags.warn_if_active("!").unwrap();
    assert!(coloured.contains("\u{1b}[33m!\u{1b}[0m"));
    assert!(coloured.contains("\u{1b}[1m--experimental-fair-sched\u{1b}[0m"));
    assert!(coloured.contains("\u{1b}[4mhttps://github.com/CodSpeedHQ/codspeed/issues\u{1b}[0m"));
}

fn cli(command: Commands) -> Cli {
    Cli {
        api_url: Some("https://api".to_owned()),
        oauth_token: None,
        config_name: None,
        profile: None,
        config: None,
        setup_cache_dir: None,
        command,
    }
}

fn run_command(token: Option<&str>) -> Commands {
    let mut shared = shared(None);
    shared.token = token.map(str::to_owned);
    Commands::Run(Box::new(RunArgs { shared, command: vec![] }))
}

fn config_with_token() -> CodSpeedConfig {
    let mut config = CodSpeedConfig::from_persisted(PersistedConfig::default());
    config.auth.token = Some("profile".to_owned());
    config
}

#[test]
fn token_of_the_run_comes_first() {
    let config = config_with_token();
    let client = build_api_client(&cli(run_command(Some("run"))), &config);
    assert!(matches!(client.authentication, Authentication::RunToken(t) if t == "run"));
    let client = build_api_client(&cli(run_command(None)), &config);
    assert!(matches!(client.authentication, Authentication::CliLogin(t) if t == "profile"));
    let anyone = CodSpeedConfig::from_persisted(PersistedConfig::default());
    let client = build_api_client(&cli(Commands::Status), &anyone);
    assert!(matches!(client.authentication, Authentication::Tokenless));
    assert_eq!(client.api_url, "https://gql.codspeed.io/");
}

#[test]
fn profile_may_be_missing_while_it_is_made() {
    let load_for = |command: Commands| {
        let mut cli = cli(command);
        cli.profile = Some("new".to_owned());
        load_config(&cli, PersistedConfig::default(), None)
    };
    assert!(load_for(Commands::Auth).is_ok());
    assert!(load_for(Commands::Profile(ProfileArgs { command: ProfileCommands::List })).is_ok());
    assert!(load_for(Commands::Status).is_err());
    let config = load_for(Commands::Auth).unwrap();
    assert_eq!(config.api_url, "https://api");
}

#[test]
fn launches_hold_what_a_command_needs() {
    let mut args = cli(run_command(None));
    args.config_name = Some("old".to_owned());
    args.setup_cache_dir = Some("~/cache".to_owned());
    let launch = codspeed::cli::run(args, PersistedConfig::default(), None, Some("/home/me")).unwrap();
    assert_eq!(launch.warning, Some(CONFIG_NAME_WARNING));
    assert_eq!(launch.setup_cache_dir.as_deref(), Some("/home/me/cache"));
    assert!(!launch.init_logger);
    match launch.command {
        Commands::Run(run) => assert_eq!(
            run.shared.upload_url.as_deref(),
            Some("https://api.codspeed.io/upload")
        ),
        other => panic!("{other:?}"),
    }
}

#[test]
fn only_a_leading_tilde_is_expanded() {
    let dir_for = |dir: &str, home: Option<&str>| {
        let mut args = cli(Commands::Show);
        args.setup_cache_dir = Some(dir.to_owned());
        let launch = codspeed::cli::run(args, PersistedConfig::default(), None, home).unwrap();
        assert!(launch.init_logger);
        assert!(launch.warning.is_none());
        launch.setup_cache_dir.unwrap()
    };
    assert_eq!(dir_for("~", Some("/h")), "/h");
    assert_eq!(dir_for("~other/x", Some("/h")), "~other/x");
    assert_eq!(dir_for("/a/~/b", Some("/h")), "/a/~/b");
    assert_eq!(dir_for("~/b", None), "~/b");
}

#[test]
fn internal_commands_call_this_program() {
    let command = InternalCommands::Samply(SamplyArgs { args: vec!["record".to_owned()] });
    let built = command.get_command_builder(Some("/opt/codspeed"), Some("/usr/bin/other")).unwrap();
    assert_eq!(built.as_command_line(), "/opt/codspeed samply record");
    let built = command.get_command_builder(None, Some("/usr/bin/other")).unwrap();
    assert_eq!(built.program(), "/usr/bin/other");
    assert_eq!(
        command.get_command_builder(None, None).unwrap_err(),
        "failed to resolve current executable for internal subcommand"
    );
}
