//! Running a command as a benchmark.
use vstd::prelude::*;

use super::shared::ExecAndRunSharedArgs;
use crate::address::parse_url;
use crate::config::DEFAULT_UPLOAD_URL;
use crate::executor::config::WalltimeProfiler;
use crate::run_environment::RepositoryProvider;
use crate::runner_mode::RunnerMode;
use crate::text::{clone_text, trim};

verus! {

/// The repository that results of commands belong to, for the time being.
pub const DEFAULT_REPOSITORY_NAME: &'static str = "local-runs";

// ---------------------------------------------------------------------------------------------
// Arguments
// ---------------------------------------------------------------------------------------------

/// How long a command is measured.
#[derive(Debug)]
pub struct WalltimeExecutionArgs {
    pub warmup_time: Option<String>,
    pub min_time: Option<String>,
    pub max_time: Option<String>,
    pub min_rounds: Option<u64>,
    pub max_rounds: Option<u64>,
}

pub struct WalltimeExecutionArgsView {
    pub warmup_time: Option<Seq<char>>,
    pub min_time: Option<Seq<char>>,
    pub max_time: Option<Seq<char>>,
    pub min_rounds: Option<u64>,
    pub max_rounds: Option<u64>,
}

impl DeepView for WalltimeExecutionArgs {
    type V = WalltimeExecutionArgsView;

    open spec fn deep_view(&self) -> WalltimeExecutionArgsView {
        WalltimeExecutionArgsView {
            warmup_time: self.warmup_time.deep_view(),
            min_time: self.min_time.deep_view(),
            max_time: self.max_time.deep_view(),
            min_rounds: self.min_rounds,
            max_rounds: self.max_rounds,
        }
    }
}

impl Clone for WalltimeExecutionArgs {
    fn clone(&self) -> (r: Self)
        ensures
            r.deep_view() == self.deep_view(),
    {
        WalltimeExecutionArgs {
            warmup_time: clone_text(&self.warmup_time),
            min_time: clone_text(&self.min_time),
            max_time: clone_text(&self.max_time),
            min_rounds: self.min_rounds,
            max_rounds: self.max_rounds,
        }
    }
}

impl Default for WalltimeExecutionArgs {
    fn default() -> (r: Self)
        ensures
            r.deep_view() == (WalltimeExecutionArgsView {
                warmup_time: None,
                min_time: None,
                max_time: None,
                min_rounds: None,
                max_rounds: None,
            }),
    {
        WalltimeExecutionArgs {
            warmup_time: None,
            min_time: None,
            max_time: None,
            min_rounds: None,
            max_rounds: None,
        }
    }
}

/// What the configuration of a project says about commands.
#[derive(Debug)]
pub struct ProjectConfig {
    pub walltime: Option<WalltimeExecutionArgs>,
}

/// `first`, or else `second`.
pub open spec fn or_number(first: Option<u64>, second: Option<u64>) -> Option<u64> {
    match first {
        Some(n) => Some(n),
        None => second,
    }
}

/// What is given, and for the rest what the project says.
pub open spec fn merged_walltime(
    given: WalltimeExecutionArgsView,
    project: Option<WalltimeExecutionArgsView>,
) -> WalltimeExecutionArgsView {
    match project {
        Some(p) => WalltimeExecutionArgsView {
            warmup_time: crate::config::first_of(given.warmup_time, p.warmup_time),
            min_time: crate::config::first_of(given.min_time, p.min_time),
            max_time: crate::config::first_of(given.max_time, p.max_time),
            min_rounds: or_number(given.min_rounds, p.min_rounds),
            max_rounds: or_number(given.max_rounds, p.max_rounds),
        },
        None => given,
    }
}

fn or_text(first: Option<String>, second: &Option<String>) -> (r: Option<String>)
    ensures
        r.deep_view() == crate::config::first_of(first.deep_view(), second.deep_view()),
{
    match first {
        Some(text) => Some(text),
        None => clone_text(second),
    }
}

fn either_number(first: Option<u64>, second: Option<u64>) -> (r: Option<u64>)
    ensures
        r == or_number(first, second),
{
    match first {
        Some(n) => Some(n),
        None => second,
    }
}

#[derive(Debug)]
pub struct ExecArgs {
    pub shared: ExecAndRunSharedArgs,
    pub walltime_args: WalltimeExecutionArgs,
    /// The name of the benchmark, in place of that of the command.
    pub name: Option<String>,
    /// The command to be run.
    pub command: Vec<String>,
}

/// What the project says about how long commands are measured.
pub open spec fn project_walltime(project_config: Option<&ProjectConfig>) -> Option<
    WalltimeExecutionArgsView,
> {
    match project_config {
        Some(config) => config.walltime.deep_view(),
        None => None,
    }
}

impl ExecArgs {
    /// The arguments, with those of the project where none are given.
    pub fn merge_with_project_config(self, project_config: Option<&ProjectConfig>) -> (r: Self)
        ensures
            r.shared == self.shared,
            r.name == self.name,
            r.command == self.command,
            r.walltime_args.deep_view() == merged_walltime(
                self.walltime_args.deep_view(),
                project_walltime(project_config),
            ),
    {
        let walltime_args = match project_config {
            Some(config) => match &config.walltime {
                Some(project) => {
                    let given = self.walltime_args;
                    WalltimeExecutionArgs {
                        warmup_time: or_text(given.warmup_time, &project.warmup_time),
                        min_time: or_text(given.min_time, &project.min_time),
                        max_time: or_text(given.max_time, &project.max_time),
                        min_rounds: either_number(given.min_rounds, project.min_rounds),
                        max_rounds: either_number(given.max_rounds, project.max_rounds),
                    }
                },
                None => self.walltime_args,
            },
            None => self.walltime_args,
        };
        ExecArgs { shared: self.shared, walltime_args, name: self.name, command: self.command }
    }
}

/// What is given wins over what the project says.
pub proof fn law_given_arguments_win(
    given: WalltimeExecutionArgsView,
    project: Option<WalltimeExecutionArgsView>,
)
    ensures
        given.warmup_time is Some ==> merged_walltime(given, project).warmup_time
            == given.warmup_time,
        given.min_time is Some ==> merged_walltime(given, project).min_time == given.min_time,
        given.max_time is Some ==> merged_walltime(given, project).max_time == given.max_time,
        given.min_rounds is Some ==> merged_walltime(given, project).min_rounds == given.min_rounds,
        given.max_rounds is Some ==> merged_walltime(given, project).max_rounds == given.max_rounds,
        merged_walltime(merged_walltime(given, project), project) == merged_walltime(given, project),
{
}

// ---------------------------------------------------------------------------------------------
// What is run
// ---------------------------------------------------------------------------------------------

/// What is measured.
#[derive(Debug)]
#[allow(inconsistent_fields)]
pub enum BenchmarkTarget {
    /// A command, which is run as a benchmark.
    Exec { command: Vec<String>, name: Option<String>, walltime_args: WalltimeExecutionArgs },
    /// A program with benchmarks in it.
    Entrypoint { command: String, name: Option<String> },
}

/// Where results belong.
#[derive(Debug)]
pub struct RepositoryOverride {
    pub owner: String,
    pub repository: String,
    pub repository_provider: RepositoryProvider,
}

/// How results are waited for.
#[derive(Debug)]
pub struct PollResultsOptions {
    /// Whether they are printed as JSON.
    pub output_json: bool,
    /// The run that they are compared to.
    pub base_run_id: Option<String>,
}

impl PollResultsOptions {
    pub fn new(output_json: bool, base_run_id: Option<String>) -> (r: Self)
        ensures
            r.output_json == output_json,
            r.base_run_id == base_run_id,
    {
        PollResultsOptions { output_json, base_run_id }
    }
}

/// What is watched besides the benchmarks.
#[derive(Debug)]
pub struct Instruments {
    /// The name of the variable with the URI of a MongoDB server.
    pub mongodb: Option<String>,
}

/// What is run, and how.
#[derive(Debug)]
pub struct OrchestratorConfig {
    pub upload_url: String,
    pub repository_override: Option<RepositoryOverride>,
    pub working_directory: Option<String>,
    pub targets: Vec<BenchmarkTarget>,
    pub modes: Vec<RunnerMode>,
    pub perf_unwinding_mode: Option<String>,
    pub enable_profiler: bool,
    pub walltime_profiler: Option<WalltimeProfiler>,
    pub simulation_tool: String,
    pub profile_folder: Option<String>,
    pub skip_upload: bool,
    pub skip_run: bool,
    pub skip_setup: bool,
    pub allow_empty: bool,
    pub go_runner_version: Option<String>,
    pub show_full_output: bool,
    pub poll_results_options: PollResultsOptions,
    pub instruments: Instruments,
    /// Variables that are set for the benchmarks.
    pub extra_env: Vec<(String, String)>,
    pub fair_sched: bool,
    pub cycle_estimation: bool,
    pub exclude_allocations: bool,
    pub simulation_track_subprocess: bool,
}

/// What to say of a URL that cannot be used.
pub open spec fn invalid_url_text(raw: Seq<char>, message: Seq<char>) -> Seq<char> {
    "Invalid upload URL: "@ + raw + ", "@ + message
}

/// The URL that results are uploaded to.
pub open spec fn upload_url_of(shared: ExecAndRunSharedArgs) -> Seq<char> {
    crate::config::text_or(shared.upload_url.deep_view(), DEFAULT_UPLOAD_URL@)
}

/// Whether the options are those of the arguments.
pub open spec fn takes_options(
    config: OrchestratorConfig,
    shared: ExecAndRunSharedArgs,
    enable_profiler: bool,
    default_simulation_tool: Seq<char>,
) -> bool {
    &&& config.working_directory == shared.working_directory
    &&& config.perf_unwinding_mode == shared.perf_unwinding_mode
    &&& config.enable_profiler == enable_profiler
    &&& config.walltime_profiler == shared.walltime_profiler
    &&& config.simulation_tool@ == crate::config::text_or(
        shared.simulation_tool.deep_view(),
        default_simulation_tool,
    )
    &&& config.profile_folder == shared.profile_folder
    &&& config.skip_upload == shared.skip_upload
    &&& config.skip_run == shared.skip_run
    &&& config.skip_setup == shared.skip_setup
    &&& config.allow_empty == shared.allow_empty
    &&& config.go_runner_version == shared.go_runner_version
    &&& config.show_full_output == shared.show_full_output
    &&& config.fair_sched == shared.experimental.experimental_fair_sched
    &&& config.cycle_estimation == shared.cycle_estimation
    &&& config.exclude_allocations == shared.exclude_allocations
    &&& config.simulation_track_subprocess == shared.simulation_track_subprocess
}

/// What `build_orchestrator_config` returns. `url` is the URL in the form in which it is used, or
/// what is wrong with it.
pub open spec fn configured(
    shared: ExecAndRunSharedArgs,
    target: BenchmarkTarget,
    poll_results_options: PollResultsOptions,
    modes: Result<Vec<RunnerMode>, String>,
    repository: Option<Result<RepositoryOverride, String>>,
    enable_profiler: bool,
    default_simulation_tool: Seq<char>,
    url: Result<Seq<char>, Seq<char>>,
    r: Result<OrchestratorConfig, String>,
) -> bool {
    match (modes, url, repository) {
        (Err(message), _, _) => r matches Err(m) && m@ == message@,
        (_, Err(message), _) => r matches Err(m) && m@ == invalid_url_text(
            upload_url_of(shared),
            message,
        ),
        (_, _, Some(Err(message))) => r matches Err(m) && m@ == message@,
        (Ok(modes), Ok(url), _) => {
            &&& r matches Ok(config)
            &&& config.upload_url@ == url
            &&& config.modes == modes
            &&& config.targets@ == seq![target]
            &&& config.poll_results_options == poll_results_options
            &&& config.instruments.mongodb is None
            &&& config.extra_env@.len() == 0
            &&& config.repository_override == (match repository {
                Some(Ok(found)) => Some(found),
                _ => None,
            })
            &&& takes_options(config, shared, enable_profiler, default_simulation_tool)
        },
    }
}

/// What is run for `target`, or the first error: that of the modes, that of the URL, or that of the
/// repository. `repository` is what the repository that is asked for was read as.
/// `default_simulation_tool` is what simulates where no tool is asked for.
pub fn build_orchestrator_config(
    args: ExecArgs,
    target: BenchmarkTarget,
    poll_results_options: PollResultsOptions,
    modes: Result<Vec<RunnerMode>, String>,
    repository: Option<Result<RepositoryOverride, String>>,
    enable_profiler: bool,
    default_simulation_tool: &str,
) -> (r: Result<OrchestratorConfig, String>)
    requires
        repository is Some <==> args.shared.repository is Some,
    ensures
        configured(
            args.shared,
            target,
            poll_results_options,
            modes,
            repository,
            enable_profiler,
            default_simulation_tool@,
            crate::address::parsed_url(upload_url_of(args.shared)),
            r,
        ),
{
    let raw = match &args.shared.upload_url {
        Some(url) => url.clone(),
        None => DEFAULT_UPLOAD_URL.to_owned(),
    };
    let url = parse_url(raw.as_str());
    config_with_url(
        args.shared,
        target,
        poll_results_options,
        modes,
        repository,
        enable_profiler,
        default_simulation_tool,
        raw,
        url,
    )
}

/// What is run for `target`, given what the URL `raw_url` was parsed to.
pub fn config_with_url(
    shared: ExecAndRunSharedArgs,
    target: BenchmarkTarget,
    poll_results_options: PollResultsOptions,
    modes: Result<Vec<RunnerMode>, String>,
    repository: Option<Result<RepositoryOverride, String>>,
    enable_profiler: bool,
    default_simulation_tool: &str,
    raw_url: String,
    url: Result<String, String>,
) -> (r: Result<OrchestratorConfig, String>)
    requires
        raw_url@ == upload_url_of(shared),
        repository is Some <==> shared.repository is Some,
    ensures
        configured(
            shared,
            target,
            poll_results_options,
            modes,
            repository,
            enable_profiler,
            default_simulation_tool@,
            crate::address::url_view(url),
            r,
        ),
{
    let modes = match modes {
        Ok(modes) => modes,
        Err(message) => {
            return Err(message);
        },
    };
    let upload_url = match url {
        Ok(url) => url,
        Err(message) => {
            let mut text = "Invalid upload URL: ".to_owned();
            text.append(raw_url.as_str());
            text.append(", ");
            text.append(message.as_str());
            return Err(text);
        },
    };
    let repository_override = match repository {
        Some(Ok(found)) => Some(found),
        Some(Err(message)) => {
            return Err(message);
        },
        None => None,
    };
    let mut targets: Vec<BenchmarkTarget> = Vec::new();
    targets.push(target);
    assert(targets@ =~= seq![target]);
    Ok(
        OrchestratorConfig {
            upload_url,
            repository_override,
            working_directory: shared.working_directory,
            targets,
            modes,
            perf_unwinding_mode: shared.perf_unwinding_mode,
            enable_profiler,
            walltime_profiler: shared.walltime_profiler,
            simulation_tool: match shared.simulation_tool {
                Some(tool) => tool,
                None => default_simulation_tool.to_owned(),
            },
            profile_folder: shared.profile_folder,
            skip_upload: shared.skip_upload,
            skip_run: shared.skip_run,
            skip_setup: shared.skip_setup,
            allow_empty: shared.allow_empty,
            go_runner_version: shared.go_runner_version,
            show_full_output: shared.show_full_output,
            poll_results_options,
            instruments: Instruments { mongodb: None },
            extra_env: Vec::new(),
            fair_sched: shared.experimental.experimental_fair_sched,
            cycle_estimation: shared.cycle_estimation,
            exclude_allocations: shared.exclude_allocations,
            simulation_track_subprocess: shared.simulation_track_subprocess,
        },
    )
}

// ---------------------------------------------------------------------------------------------
// Empty commands
// ---------------------------------------------------------------------------------------------

/// Whether a command names no program: it has no words, or the first is blank.
pub open spec fn is_blank(command: Seq<String>) -> bool {
    command.len() == 0 || crate::text::trimmed(command[0]@).len() == 0
}

/// The name by which a target without a program is reported.
pub open spec fn blank_label(target: BenchmarkTarget) -> Option<Seq<char>> {
    match target {
        BenchmarkTarget::Exec { command, name, .. } => if is_blank(command@) {
            Some(crate::config::text_or(name.deep_view(), "<unnamed>"@))
        } else {
            None
        },
        BenchmarkTarget::Entrypoint { .. } => None,
    }
}

/// The name of the first target without a program.
pub open spec fn first_blank(targets: Seq<BenchmarkTarget>) -> Option<Seq<char>>
    decreases targets.len(),
{
    if targets.len() == 0 {
        None
    } else {
        match blank_label(targets[0]) {
            Some(label) => Some(label),
            None => first_blank(targets.skip(1)),
        }
    }
}

/// What to say of a target without a program.
pub open spec fn blank_text(label: Seq<char>) -> Seq<char> {
    "Empty command for exec benchmark target `"@ + label
        + "`. Provide a program to run (e.g. `codspeed exec -- <program> [args...]`, or set a non-empty `exec` in the config)."@
}

/// Refuses commands without a program before anything is set up. A program may have empty arguments.
pub fn ensure_exec_commands_runnable(targets: &[BenchmarkTarget]) -> (r: Result<(), String>)
    ensures
        match first_blank(targets@) {
            Some(label) => r matches Err(m) && m@ == blank_text(label),
            None => r is Ok,
        },
{
    let mut i: usize = 0;
    assert(targets@.skip(0) =~= targets@);
    while i < targets.len()
        invariant
            i <= targets@.len(),
            first_blank(targets@) == first_blank(targets@.skip(i as int)),
        decreases targets.len() - i,
    {
        assert(targets@.skip(i as int)[0] == targets@[i as int]);
        assert(targets@.skip(i as int).skip(1) =~= targets@.skip(i + 1));
        if let BenchmarkTarget::Exec { command, name, .. } = &targets[i] {
            let blank: bool = if command.len() == 0 {
                true
            } else {
                trim(command[0].as_str()).as_str().unicode_len() == 0
            };
            if blank {
                let label = match name {
                    Some(name) => name.as_str(),
                    None => "<unnamed>",
                };
                let mut text = "Empty command for exec benchmark target `".to_owned();
                text.append(label);
                text.append(
                    "`. Provide a program to run (e.g. `codspeed exec -- <program> [args...]`, or set a non-empty `exec` in the config).",
                );
                return Err(text);
            }
        }
        i = i + 1;
    }
    Ok(())
}

/// What is run, once it has been made sure that all commands name a program.
pub fn execute_config(config: OrchestratorConfig) -> (r: Result<OrchestratorConfig, String>)
    ensures
        match first_blank(config.targets@) {
            Some(label) => r matches Err(m) && m@ == blank_text(label),
            None => r == Ok::<OrchestratorConfig, String>(config),
        },
{
    match ensure_exec_commands_runnable(config.targets.as_slice()) {
        Ok(()) => Ok(config),
        Err(error) => Err(error),
    }
}

/// The target that the arguments stand for.
pub open spec fn is_target_of(args: ExecArgs, target: BenchmarkTarget) -> bool {
    match target {
        BenchmarkTarget::Exec { command, name, walltime_args } => {
            &&& command.deep_view() == args.command.deep_view()
            &&& name.deep_view() == args.name.deep_view()
            &&& walltime_args.deep_view() == args.walltime_args.deep_view()
        },
        BenchmarkTarget::Entrypoint { .. } => false,
    }
}

fn target_of(args: &ExecArgs) -> (r: BenchmarkTarget)
    ensures
        is_target_of(*args, r),
{
    let mut command: Vec<String> = Vec::new();
    let mut i: usize = 0;
    while i < args.command.len()
        invariant
            i <= args.command@.len(),
            command@.len() == i,
            forall|j: int| 0 <= j < i ==> (#[trigger] command@[j])@ == args.command@[j]@,
        decreases args.command.len() - i,
    {
        command.push(args.command[i].clone());
        i = i + 1;
    }
    assert(command.deep_view() =~= args.command.deep_view());
    BenchmarkTarget::Exec {
        command,
        name: clone_text(&args.name),
        walltime_args: args.walltime_args.clone(),
    }
}

/// Whether the command of some arguments names no program.
pub open spec fn has_blank_command(args: ExecArgs) -> bool {
    args.command@.len() == 0 || crate::text::trimmed(args.command@[0]@).len() == 0
}

/// What is run for a command, once it has been made sure that it names a program. `repository` is
/// what the repository that is asked for was read as.
pub fn run(
    args: ExecArgs,
    project_config: Option<&ProjectConfig>,
    modes: Result<Vec<RunnerMode>, String>,
    repository: Option<Result<RepositoryOverride, String>>,
    enable_profiler: bool,
    default_simulation_tool: &str,
) -> (r: Result<OrchestratorConfig, String>)
    requires
        repository is Some <==> args.shared.repository is Some,
    ensures
        r matches Ok(config) ==> {
            &&& crate::address::parsed_url(upload_url_of(args.shared)) == Ok::<Seq<char>, Seq<char>>(
                config.upload_url@,
            )
            &&& modes == Ok::<Vec<RunnerMode>, String>(config.modes)
            &&& !config.poll_results_options.output_json
            &&& config.poll_results_options.base_run_id.deep_view() == args.shared.base.deep_view()
            &&& config.instruments.mongodb is None
            &&& config.extra_env@.len() == 0
            &&& config.repository_override == (match repository {
                Some(Ok(found)) => Some(found),
                _ => None,
            })
            &&& takes_options(config, args.shared, enable_profiler, default_simulation_tool@)
            &&& config.targets@.len() == 1
            &&& config.targets@[0] matches BenchmarkTarget::Exec { command, name, walltime_args }
            &&& command.deep_view() == args.command.deep_view()
            &&& name.deep_view() == args.name.deep_view()
            &&& walltime_args.deep_view() == merged_walltime(
                args.walltime_args.deep_view(),
                project_walltime(project_config),
            )
        },
        r matches Err(m) ==> m@ == (match (modes, crate::address::parsed_url(upload_url_of(args.shared)), repository) {
            (Err(message), _, _) => message@,
            (_, Err(message), _) => invalid_url_text(upload_url_of(args.shared), message),
            (_, _, Some(Err(message))) => message@,
            _ => blank_text(crate::config::text_or(args.name.deep_view(), "<unnamed>"@)),
        }),
        r is Ok <==> {
            &&& modes is Ok
            &&& crate::address::parsed_url(upload_url_of(args.shared)) is Ok
            &&& !(repository matches Some(Err(_)))
            &&& !has_blank_command(args)
        },
{
    let merged = args.merge_with_project_config(project_config);
    let base_run_id = clone_text(&merged.shared.base);
    let target = target_of(&merged);
    let ghost first = target;
    let config = match build_orchestrator_config(
        merged,
        target,
        PollResultsOptions::new(false, base_run_id),
        modes,
        repository,
        enable_profiler,
        default_simulation_tool,
    ) {
        Ok(config) => config,
        Err(error) => {
            return Err(error);
        },
    };
    proof {
        assert(config.targets@[0] == first);
        assert(config.targets@.skip(1) =~= seq![]);
        assert(first_blank(config.targets@.skip(1)) is None);
        if let BenchmarkTarget::Exec { command, .. } = first {
            assert(command.deep_view().len() == command@.len());
            assert(args.command.deep_view().len() == args.command@.len());
            if command@.len() > 0 {
                assert(command.deep_view()[0] == command@[0]@);
                assert(args.command.deep_view()[0] == args.command@[0]@);
            }
        }
    }
    execute_config(config)
}

// ---------------------------------------------------------------------------------------------
// Laws
// ---------------------------------------------------------------------------------------------

/// What is not given is taken from the project, value by value; without a project nothing changes.
pub proof fn law_project_fills_in_what_is_missing(
    given: WalltimeExecutionArgsView,
    project: WalltimeExecutionArgsView,
)
    ensures
        ({
            let merged = merged_walltime(given, Some(project));
            &&& given.warmup_time is None ==> merged.warmup_time == project.warmup_time
            &&& given.min_time is None ==> merged.min_time == project.min_time
            &&& given.max_time is None ==> merged.max_time == project.max_time
            &&& given.min_rounds is None ==> merged.min_rounds == project.min_rounds
            &&& given.max_rounds is None ==> merged.max_rounds == project.max_rounds
        }),
        merged_walltime(given, None) == given,
{
}

/// Results are uploaded to the URL that is given, or else to the default one, and are refused where that
/// is no URL. The modes are the first thing that can be wrong, the URL the second and the repository
/// the third.
pub proof fn law_first_error_is_reported(
    args: ExecArgs,
    target: BenchmarkTarget,
    poll: PollResultsOptions,
    modes: Result<Vec<RunnerMode>, String>,
    repository: Option<Result<RepositoryOverride, String>>,
    enable_profiler: bool,
    tool: &str,
    r: Result<OrchestratorConfig, String>,
)
    requires
        call_ensures(
            build_orchestrator_config,
            (args, target, poll, modes, repository, enable_profiler, tool),
            r,
        ),
    ensures
        ({
            let raw = match args.shared.upload_url {
                Some(url) => url@,
                None => "https://api.codspeed.io/upload"@,
            };
            let url = crate::address::parsed_url(raw);
            &&& modes matches Err(message) ==> (r matches Err(m) && m@ == message@)
            &&& modes is Ok && url is Err ==> r is Err
            &&& modes is Ok && url is Ok ==> (repository matches Some(Err(message)) ==> (r matches Err(
                m,
            ) && m@ == message@))
            &&& r is Ok <==> modes is Ok && url is Ok && !(repository matches Some(Err(_)))
            &&& r matches Ok(config) ==> url == Ok::<_, Seq<char>>(config.upload_url@)
            &&& r matches Ok(config) ==> config.modes == modes->Ok_0
            &&& r matches Ok(config) ==> config.targets@.len() == 1 && config.targets@[0] == target
            &&& r matches Ok(config) ==> (repository matches Some(Ok(found))
                ==> config.repository_override == Some(found))
            &&& r matches Ok(config) ==> (repository is None ==> config.repository_override is None)
        }),
{
}

/// Every option of a run is the one that was given. The tool that simulates is the default one where none
/// was.
pub proof fn law_options_are_taken_over(
    args: ExecArgs,
    project: Option<&ProjectConfig>,
    modes: Result<Vec<RunnerMode>, String>,
    repository: Option<Result<RepositoryOverride, String>>,
    enable_profiler: bool,
    tool: &str,
    config: OrchestratorConfig,
)
    requires
        call_ensures(run, (args, project, modes, repository, enable_profiler, tool), Ok(config)),
    ensures
        config.skip_upload == args.shared.skip_upload,
        config.skip_run == args.shared.skip_run,
        config.skip_setup == args.shared.skip_setup,
        config.allow_empty == args.shared.allow_empty,
        config.show_full_output == args.shared.show_full_output,
        config.cycle_estimation == args.shared.cycle_estimation,
        config.exclude_allocations == args.shared.exclude_allocations,
        config.simulation_track_subprocess == args.shared.simulation_track_subprocess,
        config.fair_sched == args.shared.experimental.experimental_fair_sched,
        config.enable_profiler == enable_profiler,
        config.walltime_profiler == args.shared.walltime_profiler,
        config.working_directory == args.shared.working_directory,
        config.profile_folder == args.shared.profile_folder,
        config.go_runner_version == args.shared.go_runner_version,
        config.perf_unwinding_mode == args.shared.perf_unwinding_mode,
        args.shared.simulation_tool matches Some(t) ==> config.simulation_tool@ == t@,
        args.shared.simulation_tool is None ==> config.simulation_tool@ == tool@,
        config.poll_results_options.base_run_id.deep_view() == args.shared.base.deep_view(),
        config.targets@[0] matches BenchmarkTarget::Exec { command, .. } && command.deep_view()
            == args.command.deep_view(),
{
}

/// A run is refused where the command to be run has no word, or only whitespace for its first; a program
/// may have blank arguments, and a program with benchmarks in it is never refused.
pub proof fn law_every_command_names_a_program(
    targets: &[BenchmarkTarget],
    r: Result<(), String>,
    i: int,
)
    requires
        call_ensures(ensure_exec_commands_runnable, (targets,), r),
    ensures
        r is Ok ==> (0 <= i < targets@.len() ==> (targets@[i] matches BenchmarkTarget::Exec {
            command,
            ..
        } ==> command@.len() > 0 && crate::text::trimmed(command@[0]@).len() > 0)),
        (forall|j: int|
            0 <= j < targets@.len() ==> (#[trigger] targets@[j] matches BenchmarkTarget::Exec {
                command,
                ..
            } ==> command@.len() > 0 && crate::text::trimmed(command@[0]@).len() > 0)) ==> r is Ok,
{
    if r is Ok && 0 <= i < targets@.len() {
        lemma_first_blank(targets@, i);
    }
    if r is Err && (forall|j: int|
        0 <= j < targets@.len() ==> (#[trigger] targets@[j] matches BenchmarkTarget::Exec {
            command,
            ..
        } ==> command@.len() > 0 && crate::text::trimmed(command@[0]@).len() > 0)) {
        lemma_some_blank(targets@);
        let j = choose|j: int| 0 <= j < targets@.len() && blank_label(#[trigger] targets@[j]) is Some;
        assert(blank_label(targets@[j]) is Some);
    }
}

proof fn lemma_first_blank(targets: Seq<BenchmarkTarget>, i: int)
    requires
        0 <= i < targets.len(),
        first_blank(targets) is None,
    ensures
        blank_label(targets[i]) is None,
    decreases targets.len(),
{
    if i > 0 {
        lemma_first_blank(targets.skip(1), i - 1);
    }
}

proof fn lemma_some_blank(targets: Seq<BenchmarkTarget>)
    requires
        first_blank(targets) is Some,
    ensures
        exists|j: int| 0 <= j < targets.len() && blank_label(#[trigger] targets[j]) is Some,
    decreases targets.len(),
{
    if blank_label(targets[0]) is None {
        let rest = targets.skip(1);
        lemma_some_blank(rest);
        let j = choose|j: int| 0 <= j < rest.len() && blank_label(#[trigger] rest[j]) is Some;
        assert(targets[j + 1] == rest[j]);
    }
}

/// What is given on the command line stands, what is missing comes from the project, and nothing
/// else changes.
pub proof fn law_arguments_are_completed_by_the_project(
    args: ExecArgs,
    project: &ProjectConfig,
    r: ExecArgs,
    alone: ExecArgs,
)
    requires
        call_ensures(ExecArgs::merge_with_project_config, (args, Some(project)), r),
        call_ensures(ExecArgs::merge_with_project_config, (args, None), alone),
    ensures
        r.shared == args.shared && r.name == args.name && r.command == args.command,
        alone.walltime_args.deep_view() == args.walltime_args.deep_view(),
        project.walltime is None ==> r.walltime_args.deep_view() == args.walltime_args.deep_view(),
        project.walltime.deep_view() matches Some(p) ==> ({
            let a = args.walltime_args.deep_view();
            let m = r.walltime_args.deep_view();
            &&& m.warmup_time == if a.warmup_time is Some { a.warmup_time } else { p.warmup_time }
            &&& m.min_time == if a.min_time is Some { a.min_time } else { p.min_time }
            &&& m.max_time == if a.max_time is Some { a.max_time } else { p.max_time }
            &&& m.min_rounds == if a.min_rounds is Some { a.min_rounds } else { p.min_rounds }
            &&& m.max_rounds == if a.max_rounds is Some { a.max_rounds } else { p.max_rounds }
        }),
{
}

/// A configuration is run as it is if the commands of its targets name programs, and otherwise
/// not at all.
pub proof fn law_configuration_is_run_as_it_is(
    config: OrchestratorConfig,
    targets: &[BenchmarkTarget],
    check: Result<(), String>,
    r: Result<OrchestratorConfig, String>,
)
    requires
        call_ensures(execute_config, (config,), r),
        call_ensures(ensure_exec_commands_runnable, (targets,), check),
        targets@ == config.targets@,
    ensures
        r is Ok <==> check is Ok,
        r matches Ok(same) ==> same == config,
        (r, check) matches (Err(a), Err(b)) ==> a@ == b@,
{
}

proof fn lemma_first_blank_is(targets: Seq<BenchmarkTarget>)
    requires
        first_blank(targets) is Some,
    ensures
        exists|j: int|
            0 <= j < targets.len() && blank_label(#[trigger] targets[j]) == first_blank(targets),
    decreases targets.len(),
{
    if blank_label(targets[0]) is None {
        let rest = targets.skip(1);
        lemma_first_blank_is(rest);
        let j = choose|j: int|
            0 <= j < rest.len() && blank_label(#[trigger] rest[j]) == first_blank(rest);
        assert(targets[j + 1] == rest[j]);
    }
}

/// A blank command is told with the label of its target.
pub proof fn law_errors_tell_what_is_wrong(
    targets: &[BenchmarkTarget],
    blank: Result<(), String>,
)
    requires
        call_ensures(ensure_exec_commands_runnable, (targets,), blank),
    ensures
        blank matches Err(m) ==> exists|i: int|
            0 <= i < targets@.len() && (#[trigger] targets@[i] matches BenchmarkTarget::Exec {
                name,
                ..
            } && ("Empty command for exec benchmark target `"@ + (match name {
                Some(n) => n@,
                None => "<unnamed>"@,
            }) + "`."@).is_prefix_of(m@)),
{
    if let Err(m) = blank {
        let label = first_blank(targets@)->0;
        lemma_first_blank_is(targets@);
        let i = choose|i: int|
            0 <= i < targets@.len() && blank_label(#[trigger] targets@[i]) == Some(label);
        reveal_strlit("`.");
        reveal_strlit("`. Provide a program to run (e.g. `codspeed exec -- <program> [args...]`, or set a non-empty `exec` in the config).");
        let start = "Empty command for exec benchmark target `"@ + label + "`."@;
        assert(m@.subrange(0, start.len() as int) =~= start);
    }
}

} // verus!
