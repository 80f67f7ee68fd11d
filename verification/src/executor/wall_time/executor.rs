//! Measuring how long benchmarks take.
use vstd::prelude::*;

use super::isolation::{Isolation, IsolationFacts, ScopeFacts};
use crate::executor::config::{ExecutorConfig, WalltimeProfiler};
use crate::executor::helpers::command::CommandBuilder;
use crate::executor::helpers::get_bench_command::get_bench_command;
use crate::executor::helpers::linux_sysctl::LinuxSysctl;
use crate::runner_mode::RunnerMode;
use crate::text_map::TextMap;

verus! {

/// The executors that there are.
#[derive(Debug, Clone, Copy, PartialEq, Eq, Structural)]
pub enum ExecutorName {
    Valgrind,
    WallTime,
    Memory,
}

/// The systems that executors may run on.
#[derive(Debug, Clone, Copy, PartialEq, Eq, Structural)]
pub enum SupportedOs {
    /// A distribution of Linux, and whether tools can be installed on it.
    Linux { is_supported: bool },
    Macos,
}

/// How well an executor runs on a system.
#[derive(Debug, Clone, Copy, PartialEq, Eq, Structural)]
pub enum ExecutorSupport {
    FullySupported,
    /// The tools have to be installed by hand.
    RequiresManualInstallation,
}

/// The profiler that is used: the one that was asked for, or samply.
pub open spec fn selected_profiler(profiler_override: Option<WalltimeProfiler>) -> WalltimeProfiler {
    match profiler_override {
        Some(profiler) => profiler,
        None => WalltimeProfiler::Samply,
    }
}

/// A step of setting up the executor.
#[derive(Debug, Clone, Copy, PartialEq, Eq, Structural)]
pub enum SetupStep {
    SetUpProfiler(WalltimeProfiler),
    /// Change the settings of the kernel that the profiler needs, and note them.
    ChangeSysctls,
}

/// The steps of setting up the executor. Settings are changed once only.
pub open spec fn setup_steps(profiler: Option<WalltimeProfiler>, sysctls_changed: bool) -> Seq<
    SetupStep,
> {
    match profiler {
        Some(p) => if sysctls_changed {
            seq![SetupStep::SetUpProfiler(p)]
        } else {
            seq![SetupStep::SetUpProfiler(p), SetupStep::ChangeSysctls]
        },
        None => seq![],
    }
}

/// What the environment of a benchmark is made for.
#[derive(Debug, Clone, Copy, PartialEq, Eq, Structural)]
pub struct EnvRequest {
    pub mode: RunnerMode,
    /// Whether programs that start benchmarks are replaced by ones that are measured.
    pub introspection: bool,
}

/// A benchmark that is about to be run.
#[derive(Debug)]
pub struct BenchCommand {
    /// The variables that are forwarded to it.
    pub env: TextMap<String>,
    /// What the file that is run holds.
    pub script: String,
    pub command: CommandBuilder,
}

/// The values of some variables.
pub open spec fn variables(env: TextMap<String>) -> Map<Seq<char>, Seq<char>> {
    env@.map_values(|value: String| value@)
}

/// How the benchmark is run.
#[derive(Debug)]
pub enum RunPlan {
    /// By a profiler, which needs privileges or not.
    WithProfiler { profiler: WalltimeProfiler, command: CommandBuilder, requires_sudo: bool },
    /// By itself, with privileges or not.
    Plain { command: CommandBuilder, with_sudo: bool },
}

/// How a process ended.
#[derive(Debug)]
pub struct ExitSummary {
    pub success: bool,
    /// How the system words it.
    pub text: String,
}

/// What is done when the profile is complete.
#[derive(Debug, Clone, Copy, PartialEq, Eq, Structural)]
pub enum TeardownStep {
    /// Hand what was measured to the profiler.
    Finalize(WalltimeProfiler),
    /// Check the results, of which there need not be any where that is allowed.
    ValidateResults { allow_empty: bool },
}

/// The steps of completing a profile.
pub open spec fn teardown_steps(
    profiler: Option<WalltimeProfiler>,
    was_measured: bool,
    allow_empty: bool,
) -> Seq<TeardownStep> {
    match profiler {
        Some(p) => if was_measured {
            seq![TeardownStep::Finalize(p), TeardownStep::ValidateResults { allow_empty }]
        } else {
            seq![TeardownStep::ValidateResults { allow_empty }]
        },
        None => seq![TeardownStep::ValidateResults { allow_empty }],
    }
}

/// An executor that measures how long benchmarks take.
#[derive(Debug)]
pub struct WallTimeExecutor {
    profiler: Option<WalltimeProfiler>,
    /// Whether a run was measured by the profiler.
    was_measured: bool,
    /// The settings that were changed, once they were.
    profiling_sysctls: Option<Vec<LinuxSysctl>>,
}

impl WallTimeExecutor {
    pub closed spec fn used_profiler(self) -> Option<WalltimeProfiler> {
        self.profiler
    }

    pub closed spec fn measured(self) -> bool {
        self.was_measured
    }

    /// The settings that were changed, with the values that they had.
    pub closed spec fn noted(self) -> Seq<LinuxSysctl> {
        match self.profiling_sysctls {
            Some(sysctls) => sysctls@,
            None => seq![],
        }
    }

    /// Whether the settings that the profiler needs were changed.
    pub closed spec fn sysctls_changed(self) -> bool {
        self.profiling_sysctls is Some
    }

    pub fn new(profiler_override: Option<WalltimeProfiler>) -> (r: Self)
        ensures
            r.used_profiler() == Some(selected_profiler(profiler_override)),
            !r.measured(),
            !r.sysctls_changed(),
            r.noted().len() == 0,
    {
        WallTimeExecutor {
            profiler: select_profiler(profiler_override),
            was_measured: false,
            profiling_sysctls: None,
        }
    }

    pub fn name(&self) -> (r: ExecutorName)
        ensures
            r is WallTime,
    {
        ExecutorName::WallTime
    }

    /// How well the executor runs on a system.
    pub fn support_level(&self, os: SupportedOs) -> (r: ExecutorSupport)
        ensures
            r == (match os {
                SupportedOs::Linux { is_supported: false } => {
                    ExecutorSupport::RequiresManualInstallation
                },
                _ => ExecutorSupport::FullySupported,
            }),
    {
        match os {
            SupportedOs::Linux { is_supported } => if is_supported {
                ExecutorSupport::FullySupported
            } else {
                ExecutorSupport::RequiresManualInstallation
            },
            SupportedOs::Macos => ExecutorSupport::FullySupported,
        }
    }

    /// The steps of setting up the executor.
    pub fn setup(&self) -> (r: Vec<SetupStep>)
        ensures
            r@ == setup_steps(self.used_profiler(), self.sysctls_changed()),
    {
        let mut steps: Vec<SetupStep> = Vec::new();
        if let Some(profiler) = self.profiler {
            steps.push(SetupStep::SetUpProfiler(profiler));
            if self.profiling_sysctls.is_none() {
                steps.push(SetupStep::ChangeSysctls);
            }
        }
        assert(steps@ =~= setup_steps(self.profiler, self.profiling_sysctls is Some));
        steps
    }

    /// Notes the settings that were changed. They are not noted twice, and are handed back where
    /// they were noted before.
    pub fn note_sysctls(&mut self, sysctls: Vec<LinuxSysctl>) -> (r: Result<(), Vec<LinuxSysctl>>)
        ensures
            final(self).sysctls_changed(),
            r is Ok <==> !old(self).sysctls_changed(),
            r is Ok ==> final(self).noted() == sysctls@,
            r matches Err(back) ==> back == sysctls && *final(self) == *old(self),
            final(self).used_profiler() == old(self).used_profiler(),
            final(self).measured() == old(self).measured(),
    {
        if self.profiling_sysctls.is_some() {
            return Err(sysctls);
        }
        self.profiling_sysctls = Some(sysctls);
        Ok(())
    }

    /// The settings that were changed, which are to be put back when the executor is no longer used.
    pub fn into_sysctls(self) -> (r: Vec<LinuxSysctl>)
        ensures
            r@ == self.noted(),
    {
        match self.profiling_sysctls {
            Some(sysctls) => sysctls,
            None => Vec::new(),
        }
    }

    /// What the environment that benchmarks are run in is made for.
    pub fn env_request(config: &ExecutorConfig) -> (r: EnvRequest)
        ensures
            r == (EnvRequest {
                mode: RunnerMode::Walltime,
                introspection: config.enable_introspection,
            }),
    {
        EnvRequest { mode: RunnerMode::Walltime, introspection: config.enable_introspection }
    }

    /// The script of the benchmark, the variables that it is run with, and the command that runs it
    /// from the file `script_path`, before the variables are forwarded to it.
    ///
    /// `path_value` is the search path for programs, or why there is none, and `base_env` the other
    /// variables, both as [`env_request`](Self::env_request) asks for them.
    pub fn walltime_bench_cmd(
        config: &ExecutorConfig,
        path_value: Result<String, String>,
        base_env: TextMap<String>,
        script_path: &str,
    ) -> (r: Result<BenchCommand, String>)
        requires
            base_env.wf(),
        ensures
            match path_value {
                Err(message) => r matches Err(m) && m@ == message@,
                Ok(path) => if crate::text::trimmed(config.command@).len() == 0 {
                    r matches Err(m) && m@ == "The bench command is empty"@
                } else {
                    &&& r matches Ok(bench)
                    &&& bench.env.wf()
                    &&& variables(bench.env) == variables(base_env).insert("PATH"@, path@)
                    &&& bench.script@ == crate::text::replaced(
                        crate::text::trimmed(config.command@),
                        "cargo codspeed"@,
                        "cargo-codspeed"@,
                    )
                    &&& bench.command.words() == seq!["bash"@, script_path@]
                    &&& bench.command.cwd_view() is None
                },
            },
    {
        let path = match path_value {
            Ok(path) => path,
            Err(message) => {
                return Err(message);
            },
        };
        let mut env = base_env;
        let ghost view = path@;
        env.insert("PATH".to_owned(), path);
        assert(variables(env) =~= variables(base_env).insert("PATH"@, view));
        let script = match get_bench_command(config) {
            Ok(script) => script,
            Err(error) => {
                return Err(error.message());
            },
        };
        let mut command = CommandBuilder::new("bash");
        command.arg(script_path);
        assert(command.words() =~= seq!["bash"@, script_path@]);
        Ok(BenchCommand { env, script, command })
    }

    /// The command of the benchmark, once its variables are forwarded to it, in the directory
    /// `working_directory`, if there is one.
    pub fn bench_cmd_in(forwarded: CommandBuilder, working_directory: Option<&str>) -> (r:
        CommandBuilder)
        ensures
            r.words() == forwarded.words(),
            r.cwd_view() == crate::config::first_of(
                crate::text::text_of(working_directory),
                forwarded.cwd_view(),
            ),
    {
        let mut command = forwarded;
        if let Some(dir) = working_directory {
            command.current_dir(dir);
        }
        command
    }

    /// How the benchmark `bench_cmd` is run when it is isolated in this way.
    pub fn run(
        &self,
        isolation: &Isolation,
        scope: ScopeFacts,
        bench_cmd: CommandBuilder,
        enable_profiler: bool,
    ) -> (r: RunPlan)
        ensures
            match r {
                RunPlan::WithProfiler { profiler, command, requires_sudo } => {
                    &&& enable_profiler
                    &&& self.used_profiler() == Some(profiler)
                    &&& requires_sudo == (*isolation is Systemd)
                    &&& isolated(*isolation, scope, bench_cmd, command)
                },
                RunPlan::Plain { command, with_sudo } => {
                    &&& !(enable_profiler && self.used_profiler() is Some)
                    &&& with_sudo == (*isolation is Systemd)
                    &&& isolated(*isolation, scope, bench_cmd, command)
                },
            },
    {
        let requires_sudo = isolation.requires_sudo();
        let command = isolation.wrap_bench(bench_cmd, scope);
        if let Some(profiler) = self.profiler {
            if enable_profiler {
                return RunPlan::WithProfiler { profiler, command, requires_sudo };
            }
        }
        RunPlan::Plain { command, with_sudo: requires_sudo }
    }

    /// Notes that a run was measured by the profiler.
    pub fn note_measured(&mut self)
        ensures
            final(self).measured(),
            final(self).noted() == old(self).noted(),
            final(self).used_profiler() == old(self).used_profiler(),
            final(self).sysctls_changed() == old(self).sysctls_changed(),
    {
        self.was_measured = true;
    }

    /// The error of a run: where the benchmark could not be run, or did not succeed.
    pub fn check_status(status: Result<ExitSummary, String>) -> (r: Result<(), String>)
        ensures
            match status {
                Ok(exit) => if exit.success {
                    r is Ok
                } else {
                    r matches Err(m) && m@ == "failed to execute the benchmark process: "@
                        + exit.text@
                },
                Err(error) => r matches Err(m) && m@
                    == "failed to execute the benchmark process. "@ + error@,
            },
    {
        match status {
            Ok(exit) => {
                if exit.success {
                    return Ok(());
                }
                let mut text = "failed to execute the benchmark process: ".to_owned();
                text.append(exit.text.as_str());
                Err(text)
            },
            Err(error) => {
                let mut text = "failed to execute the benchmark process. ".to_owned();
                text.append(error.as_str());
                Err(text)
            },
        }
    }

    /// The steps of completing the profile.
    pub fn teardown(&self, allow_empty: bool) -> (r: Vec<TeardownStep>)
        ensures
            r@ == teardown_steps(self.used_profiler(), self.measured(), allow_empty),
    {
        let mut steps: Vec<TeardownStep> = Vec::new();
        if let Some(profiler) = self.profiler {
            if self.was_measured {
                steps.push(TeardownStep::Finalize(profiler));
            }
        }
        steps.push(TeardownStep::ValidateResults { allow_empty });
        assert(steps@ =~= teardown_steps(self.profiler, self.was_measured, allow_empty));
        steps
    }
}

/// Whether `command` is the benchmark as it is run when isolated.
pub open spec fn isolated(
    isolation: Isolation,
    scope: ScopeFacts,
    bench_cmd: CommandBuilder,
    command: CommandBuilder,
) -> bool {
    match isolation {
        Isolation::Unpinned => command == bench_cmd,
        Isolation::Hooks => command.words() == seq![super::isolation::WRAP_BENCH_HOOK@]
            + bench_cmd.words() && command.cwd_view() == bench_cmd.cwd_view(),
        Isolation::Systemd => command.words() == super::isolation::scope_words(scope)
            + bench_cmd.words() && command.cwd_view() == bench_cmd.cwd_view() && (!scope.is_linux
            ==> command == bench_cmd),
    }
}

/// The profiler that is used.
fn select_profiler(profiler_override: Option<WalltimeProfiler>) -> (r: Option<WalltimeProfiler>)
    ensures
        r == Some(selected_profiler(profiler_override)),
{
    match profiler_override {
        Some(profiler) => Some(profiler),
        None => Some(WalltimeProfiler::Samply),
    }
}

// ---------------------------------------------------------------------------------------------
// What integrations ask for
// ---------------------------------------------------------------------------------------------

/// What an integration says while the benchmark runs, or is answered.
#[derive(Debug, Clone, Copy, PartialEq, Eq, Structural)]
pub enum FifoCommand {
    StartProfiler,
    StopProfiler,
    /// Asks whether the profiler is there.
    PingProfiler,
    GetIntegrationMode,
    Acknowledge,
    Refuse,
    /// That times are measured.
    WalltimeMode,
    Other,
}

/// What is done for a command.
#[derive(Debug, Clone, Copy, PartialEq, Eq, Structural)]
pub enum FifoStep {
    StartProfiler,
    StopProfiler,
    /// Ask the profiler, and answer as [`reply_to_ping`] says.
    PingProfiler,
    Answer(FifoCommand),
    Nothing,
}

/// What is done for a command of an integration.
pub fn on_fifo_command(command: FifoCommand) -> (r: FifoStep)
    ensures
        r == (match command {
            FifoCommand::StartProfiler => FifoStep::StartProfiler,
            FifoCommand::StopProfiler => FifoStep::StopProfiler,
            FifoCommand::PingProfiler => FifoStep::PingProfiler,
            FifoCommand::GetIntegrationMode => FifoStep::Answer(FifoCommand::WalltimeMode),
            _ => FifoStep::Nothing,
        }),
{
    match command {
        FifoCommand::StartProfiler => FifoStep::StartProfiler,
        FifoCommand::StopProfiler => FifoStep::StopProfiler,
        FifoCommand::PingProfiler => FifoStep::PingProfiler,
        FifoCommand::GetIntegrationMode => FifoStep::Answer(FifoCommand::WalltimeMode),
        _ => FifoStep::Nothing,
    }
}

/// The answer to an integration that asks whether the profiler is there.
pub fn reply_to_ping(is_there: bool) -> (r: FifoCommand)
    ensures
        r == (if is_there {
            FifoCommand::Acknowledge
        } else {
            FifoCommand::Refuse
        }),
{
    if is_there {
        FifoCommand::Acknowledge
    } else {
        FifoCommand::Refuse
    }
}

/// The profiler needs privileges only where the benchmark is taken out from below it.
pub proof fn law_privileges_follow_isolation(facts: IsolationFacts)
    requires
        super::isolation::isolation_of(facts) is Systemd,
    ensures
        facts.is_linux,
        !facts.hook_is_executable,
{
}

/// The profiler that was asked for is used, and samply where none was. It is set up before each run,
/// and the settings of the kernel are changed for it once.
pub proof fn law_profiler_is_set_up(
    asked: Option<WalltimeProfiler>,
    fresh: WallTimeExecutor,
    executor: &WallTimeExecutor,
    steps: Vec<SetupStep>,
)
    requires
        call_ensures(WallTimeExecutor::new, (asked,), fresh),
        call_ensures(WallTimeExecutor::setup, (executor,), steps),
    ensures
        asked matches Some(profiler) ==> fresh.used_profiler() == Some(profiler),
        asked is None ==> fresh.used_profiler() == Some(WalltimeProfiler::Samply),
        !fresh.measured() && !fresh.sysctls_changed(),
        executor.used_profiler() is None ==> steps@.len() == 0,
        executor.used_profiler() matches Some(profiler) ==> steps@.len() > 0 && steps@[0]
            == SetupStep::SetUpProfiler(profiler),
        steps@.contains(SetupStep::ChangeSysctls) <==> executor.used_profiler() is Some
            && !executor.sysctls_changed(),
{
    if executor.used_profiler() is Some && !executor.sysctls_changed() {
        assert(steps@[1] == SetupStep::ChangeSysctls);
    }
}

/// The results are always checked at the end, and may be empty only where that is allowed. Before that,
/// what was measured is handed to the profiler, if anything was.
pub proof fn law_results_are_checked_last(
    executor: &WallTimeExecutor,
    allow_empty: bool,
    steps: Vec<TeardownStep>,
)
    requires
        call_ensures(WallTimeExecutor::teardown, (executor, allow_empty), steps),
    ensures
        steps@.len() > 0 && steps@.last() == (TeardownStep::ValidateResults { allow_empty }),
        executor.measured() && executor.used_profiler() is Some <==> steps@.len() == 2,
        steps@.len() == 2 ==> steps@[0] == TeardownStep::Finalize(executor.used_profiler()->0),
        steps@.len() <= 2,
{
}

/// The benchmark is run by the profiler where that is enabled and there is one. Either way it is the
/// benchmark that was handed over that is run, at the end of the command, and privileges are needed
/// exactly where systemd isolates it.
pub proof fn law_run_keeps_the_benchmark(
    executor: &WallTimeExecutor,
    isolation: &Isolation,
    scope: ScopeFacts,
    bench: CommandBuilder,
    enable_profiler: bool,
    plan: RunPlan,
)
    requires
        call_ensures(WallTimeExecutor::run, (executor, isolation, scope, bench, enable_profiler), plan),
    ensures
        plan is WithProfiler <==> enable_profiler && executor.used_profiler() is Some,
        match plan {
            RunPlan::WithProfiler { profiler, command, requires_sudo } => {
                &&& executor.used_profiler() == Some(profiler)
                &&& bench.words().is_suffix_of(command.words())
                &&& command.cwd_view() == bench.cwd_view()
                &&& requires_sudo <==> *isolation is Systemd
            },
            RunPlan::Plain { command, with_sudo } => {
                &&& bench.words().is_suffix_of(command.words())
                &&& command.cwd_view() == bench.cwd_view()
                &&& with_sudo <==> *isolation is Systemd
            },
        },
{
    super::isolation::law_isolation_keeps_the_benchmark(scope, bench.words());
    assert(bench.words().skip(0) =~= bench.words());
}

/// The benchmark gets the path that is searched for programs and every variable that it was to have,
/// and what is run is its command.
pub proof fn law_benchmark_gets_its_variables(
    config: &ExecutorConfig,
    path: String,
    base: TextMap<String>,
    script_path: &str,
    r: Result<BenchCommand, String>,
    name: Seq<char>,
    command: Result<String, crate::executor::helpers::get_bench_command::EmptyCommand>,
)
    requires
        call_ensures(WallTimeExecutor::walltime_bench_cmd, (config, Ok(path), base, script_path), r),
        call_ensures(get_bench_command, (config,), command),
    ensures
        r is Ok <==> command is Ok,
        r matches Ok(bench) ==> {
            &&& variables(bench.env).contains_key("PATH"@) && variables(bench.env)["PATH"@] == path@
            &&& name != "PATH"@ ==> (variables(bench.env).contains_key(name) <==> variables(
                base,
            ).contains_key(name))
            &&& name != "PATH"@ && variables(base).contains_key(name) ==> variables(bench.env)[name]
                == variables(base)[name]
            &&& bench.script@ == command->Ok_0@
            &&& bench.command.words() =~= seq!["bash"@, script_path@]
        },
{
}

/// A run succeeds if the benchmark does, and only then.
pub proof fn law_failed_benchmarks_are_errors(
    status: Result<ExitSummary, String>,
    r: Result<(), String>,
)
    requires
        call_ensures(WallTimeExecutor::check_status, (status,), r),
    ensures
        r is Ok <==> (status matches Ok(exit) && exit.success),
{
}

/// An integration that starts or stops the profiler gets that done, one that asks for the mode is told
/// that times are measured, and a ping is acknowledged if the profiler is there. Answers are not
/// answered.
pub proof fn law_integrations_are_answered(
    command: FifoCommand,
    step: FifoStep,
    is_there: bool,
    reply: FifoCommand,
)
    requires
        call_ensures(on_fifo_command, (command,), step),
        call_ensures(reply_to_ping, (is_there,), reply),
    ensures
        step is StartProfiler <==> command is StartProfiler,
        step is StopProfiler <==> command is StopProfiler,
        step is PingProfiler <==> command is PingProfiler,
        step is Answer <==> command is GetIntegrationMode,
        step matches FifoStep::Answer(answer) ==> answer is WalltimeMode,
        reply is Acknowledge <==> is_there,
        reply is Refuse <==> !is_there,
{
}

/// Tools have to be installed by hand only on distributions of Linux that are not known.
pub proof fn law_unknown_distributions_need_installation(
    executor: &WallTimeExecutor,
    os: SupportedOs,
    r: ExecutorSupport,
    name: ExecutorName,
)
    requires
        call_ensures(WallTimeExecutor::support_level, (executor, os), r),
        call_ensures(WallTimeExecutor::name, (executor,), name),
    ensures
        r is RequiresManualInstallation <==> (os matches SupportedOs::Linux { is_supported }
            && !is_supported),
        name is WallTime,
{
}

/// The benchmark runs in the working directory that is set, or else where it ran, with the same
/// words.
pub proof fn law_benchmark_runs_in_its_directory(
    forwarded: CommandBuilder,
    dir: &str,
    there: CommandBuilder,
    here: CommandBuilder,
)
    requires
        call_ensures(WallTimeExecutor::bench_cmd_in, (forwarded, Some(dir)), there),
        call_ensures(WallTimeExecutor::bench_cmd_in, (forwarded, None), here),
    ensures
        there.cwd_view() == Some(dir@),
        here.cwd_view() == forwarded.cwd_view(),
        there.words() == forwarded.words(),
        here.words() == forwarded.words(),
{
}

} // verus!
