use codspeed::executor::config::{ExecutorConfig, WalltimeProfiler};
use codspeed::executor::helpers::command::CommandBuilder;
use codspeed::executor::helpers::linux_sysctl::LinuxSysctl;
use codspeed::executor::wall_time::executor::{
    on_fifo_command, reply_to_ping, BenchCommand, ExecutorName, ExecutorSupport, ExitSummary, FifoCommand,
    FifoStep, RunPlan, SetupStep, SupportedOs, TeardownStep, WallTimeExecutor,
};
use codspeed::executor::wall_time::isolation::{
    hook_is_executable, Isolation, IsolationFacts, ScopeFacts, POST_BENCH_HOOK, PRE_BENCH_HOOK,
    WRAP_BENCH_HOOK,
};

use codspeed::runner_mode::RunnerMode;
use codspeed::text_map::TextMap;

fn facts(setting: Option<&str>) -> IsolationFacts<'_> {
    IsolationFacts {
        is_linux: true,
        setting,
        hook_is_executable: false,
        can_elevate: true,
    }
}

const SCOPE: ScopeFacts = ScopeFacts { is_linux: true, debug: false, uid: 1000, gid: 100 };

#[test]
fn isolation_false_disables() {
    assert!(matches!(
        Isolation::resolve(facts(Some("false")), 1).0,
        Isolation::Unpinned
    ));
}

#[test]
fn systemd_requires_sudo_but_hooks_do_not() {
    assert!(Isolation::Systemd.requires_sudo());
    assert!(!Isolation::Hooks.requires_sudo());
    assert!(!Isolation::Unpinned.requires_sudo());
}

#[test]
fn hook_wrap_prepends_wrap_bench() {
    let mut cmd = CommandBuilder::new("bash");
    cmd.arg("/tmp/bench.sh");
    let wrapped = Isolation::Hooks.wrap_bench(cmd, SCOPE);
    assert_eq!(
        wrapped.as_command_line(),
        format!("{WRAP_BENCH_HOOK} bash /tmp/bench.sh")
    );
}

#[test]
fn none_wrap_is_passthrough() {
    let mut cmd = CommandBuilder::new("bash");
    cmd.arg("/tmp/bench.sh");
    let wrapped = Isolation::Unpinned.wrap_bench(cmd, SCOPE);
    assert_eq!(wrapped.as_command_line(), "bash /tmp/bench.sh");
}

#[test]
fn systemd_wraps_in_a_scope() {
    let mut cmd = CommandBuilder::new("bash");
    cmd.arg("/tmp/bench.sh");
    let wrapped = Isolation::Systemd.wrap_bench(cmd, SCOPE);
    assert_eq!(
        wrapped.as_command_line(),
        "systemd-run --quiet --slice=codspeed.slice --scope --same-dir --uid=1000 --gid=100 -- bash /tmp/bench.sh"
    );
}

#[test]
fn isolation_needs_privileges_or_a_request() {
    assert_eq!(Isolation::resolve(facts(None), 1).0, Isolation::Systemd);
    let nobody = |setting| IsolationFacts { can_elevate: false, ..facts(setting) };
    assert_eq!(Isolation::resolve(nobody(None), 1).0, Isolation::Unpinned);
    assert_eq!(Isolation::resolve(nobody(Some("true")), 1).0, Isolation::Systemd);
    let mac = IsolationFacts { is_linux: false, ..facts(Some("true")) };
    assert_eq!(Isolation::resolve(mac, 1).0, Isolation::Unpinned);
}

#[test]
fn hooks_are_called_before_and_after() {
    let image = IsolationFacts { hook_is_executable: true, ..facts(None) };
    let (isolation, call) = Isolation::resolve(image, 42);
    assert_eq!(isolation, Isolation::Hooks);
    let call = call.unwrap();
    assert_eq!(call.program, PRE_BENCH_HOOK);
    assert_eq!(call.args, vec!["42"]);
    let end = isolation.teardown().unwrap();
    assert_eq!(end.program, POST_BENCH_HOOK);
    assert!(end.args.is_empty());
    assert!(Isolation::Systemd.teardown().is_none());
    assert!(hook_is_executable(true, true, 0o755));
    assert!(!hook_is_executable(true, true, 0o644));
    assert!(!hook_is_executable(true, false, 0o755));
    assert!(!hook_is_executable(false, true, 0o755));
}

#[test]
fn sysctls_are_noted_once() {
    let mut executor = WallTimeExecutor::new(None);
    assert_eq!(executor.name(), ExecutorName::WallTime);
    assert_eq!(
        executor.setup(),
        vec![
            SetupStep::SetUpProfiler(WalltimeProfiler::Samply),
            SetupStep::ChangeSysctls
        ]
    );
    let (sysctl, _) = LinuxSysctl::set("kernel.perf_event_paranoid", 2, -1);
    assert!(executor.note_sysctls(vec![sysctl]).is_ok());
    executor.note_measured();
    assert_eq!(
        executor.setup(),
        vec![SetupStep::SetUpProfiler(WalltimeProfiler::Samply)]
    );
    let (sysctl, _) = LinuxSysctl::set("kernel.kptr_restrict", 1, 0);
    assert_eq!(executor.note_sysctls(vec![sysctl]).unwrap_err().len(), 1);
    let noted = executor.into_sysctls();
    assert_eq!(noted.len(), 1);
    assert_eq!(noted[0].restore(), Some(("kernel.perf_event_paranoid", 2)));
    assert!(WallTimeExecutor::new(None).into_sysctls().is_empty());
}

#[test]
fn support_depends_on_the_system() {
    let executor = WallTimeExecutor::new(None);
    assert_eq!(
        executor.support_level(SupportedOs::Linux { is_supported: true }),
        ExecutorSupport::FullySupported
    );
    assert_eq!(
        executor.support_level(SupportedOs::Linux { is_supported: false }),
        ExecutorSupport::RequiresManualInstallation
    );
    assert_eq!(
        executor.support_level(SupportedOs::Macos),
        ExecutorSupport::FullySupported
    );
}

fn config(command: &str) -> ExecutorConfig {
    ExecutorConfig {
        command: command.to_owned(),
        working_directory: None,
        enable_introspection: false,
        enable_profiler: true,
        allow_empty: false,
    }
}

fn bench_cmd(command: &str, path: Result<String, String>) -> Result<BenchCommand, String> {
    let mut env = TextMap::new();
    env.insert("PATH".to_owned(), "/old".to_owned());
    env.insert("CODSPEED_ENV".to_owned(), "runner".to_owned());
    WallTimeExecutor::walltime_bench_cmd(&config(command), path, env, "/tmp/s.sh")
}

#[test]
fn benchmark_gets_its_variables() {
    let request = WallTimeExecutor::env_request(&config("make"));
    assert_eq!(request.mode, RunnerMode::Walltime);
    assert_eq!(request.introspection, config("make").enable_introspection);
    let bench = bench_cmd("make", Ok("/shims:/bin".to_owned())).unwrap();
    assert_eq!(bench.env.len(), 2);
    assert_eq!(bench.env.get("PATH").map(String::as_str), Some("/shims:/bin"));
    assert_eq!(bench.env.get("CODSPEED_ENV").map(String::as_str), Some("runner"));
    assert_eq!(bench_cmd(" ", Ok("/bin".to_owned())).unwrap_err(), "The bench command is empty");
    assert_eq!(bench_cmd(" ", Err("no path".to_owned())).unwrap_err(), "no path");
}

#[test]
fn benchmark_is_run_by_the_profiler_where_it_is_enabled() {
    let bench = bench_cmd(" make bench ", Ok("/bin".to_owned())).unwrap();
    assert_eq!(bench.script, "make bench");
    let command = WallTimeExecutor::bench_cmd_in(bench.command, Some("/w"));
    assert_eq!(command.directory(), Some("/w"));

    let executor = WallTimeExecutor::new(Some(WalltimeProfiler::Perf));
    match executor.run(&Isolation::Unpinned, SCOPE, command, true) {
        RunPlan::WithProfiler { profiler, command, requires_sudo } => {
            assert_eq!(profiler, WalltimeProfiler::Perf);
            assert_eq!(command.as_command_line(), "bash /tmp/s.sh");
            assert!(!requires_sudo);
        }
        RunPlan::Plain { .. } => panic!("the profiler is enabled"),
    }
    let bench = bench_cmd("make", Ok("/bin".to_owned())).unwrap();
    let command = WallTimeExecutor::bench_cmd_in(bench.command, None);
    assert_eq!(command.directory(), None);
    match executor.run(&Isolation::Systemd, SCOPE, command, false) {
        RunPlan::Plain { command, with_sudo } => {
            assert!(command.as_command_line().starts_with("systemd-run "));
            assert!(with_sudo);
        }
        RunPlan::WithProfiler { .. } => panic!("the profiler is not enabled"),
    }
}

#[test]
fn failed_benchmarks_are_errors() {
    let exit = |success: bool| ExitSummary { success, text: "exit status: 1".to_owned() };
    assert!(WallTimeExecutor::check_status(Ok(exit(true))).is_ok());
    assert_eq!(
        WallTimeExecutor::check_status(Ok(exit(false))).unwrap_err(),
        "failed to execute the benchmark process: exit status: 1"
    );
    assert_eq!(
        WallTimeExecutor::check_status(Err("no such file".to_owned())).unwrap_err(),
        "failed to execute the benchmark process. no such file"
    );
}

#[test]
fn measured_runs_are_finalized() {
    let mut executor = WallTimeExecutor::new(None);
    assert_eq!(
        executor.teardown(true),
        vec![TeardownStep::ValidateResults { allow_empty: true }]
    );
    executor.note_measured();
    assert_eq!(
        executor.teardown(false),
        vec![
            TeardownStep::Finalize(WalltimeProfiler::Samply),
            TeardownStep::ValidateResults { allow_empty: false }
        ]
    );
}

#[test]
fn integrations_are_answered() {
    assert_eq!(on_fifo_command(FifoCommand::StartProfiler), FifoStep::StartProfiler);
    assert_eq!(on_fifo_command(FifoCommand::StopProfiler), FifoStep::StopProfiler);
    assert_eq!(on_fifo_command(FifoCommand::PingProfiler), FifoStep::PingProfiler);
    assert_eq!(
        on_fifo_command(FifoCommand::GetIntegrationMode),
        FifoStep::Answer(FifoCommand::WalltimeMode)
    );
    assert_eq!(on_fifo_command(FifoCommand::Other), FifoStep::Nothing);
    assert_eq!(reply_to_ping(true), FifoCommand::Acknowledge);
    assert_eq!(reply_to_ping(false), FifoCommand::Refuse);
}
