//! How a benchmark gets cores of its own.
use vstd::prelude::*;

use crate::executor::helpers::command::CommandBuilder;
use crate::numeral::u64_to_decimal;
use crate::text::str_eq;

verus! {

/// The programs that an image installs to assign cores. They know how; here they are only run.
pub const PRE_BENCH_HOOK: &'static str = "/usr/local/bin/codspeed-pre-bench";

pub const WRAP_BENCH_HOOK: &'static str = "/usr/local/bin/codspeed-wrap-bench";

pub const POST_BENCH_HOOK: &'static str = "/usr/local/bin/codspeed-post-bench";

/// The variable that selects how benchmarks are isolated.
pub const ISOLATION_ENV: &'static str = "CODSPEED_ISOLATION";

/// How the benchmark is kept on cores of its own while it runs.
#[derive(Debug, Clone, Copy, PartialEq, Eq, Structural)]
pub enum Isolation {
    /// It is not.
    Unpinned,
    /// By the programs of the image. What runs is first moved off the cores of the benchmark, which
    /// then moves onto them, and stays below the profiler.
    Hooks,
    /// By systemd, which takes the benchmark out from below the profiler, so that the profiler
    /// needs privileges to see it.
    Systemd,
}

/// What the choice of isolation depends on.
#[derive(Debug, Clone, Copy)]
pub struct IsolationFacts<'a> {
    pub is_linux: bool,
    /// The value of [`ISOLATION_ENV`], where it is set.
    pub setting: Option<&'a str>,
    /// Whether [`WRAP_BENCH_HOOK`] can be run.
    pub hook_is_executable: bool,
    /// Whether privileges can be had without asking for a password.
    pub can_elevate: bool,
}

/// How the benchmark is isolated.
pub open spec fn isolation_of(facts: IsolationFacts) -> Isolation {
    let setting = crate::text::text_of(facts.setting);
    if !facts.is_linux || setting == Some("false"@) {
        Isolation::Unpinned
    } else if facts.hook_is_executable {
        Isolation::Hooks
    } else if setting == Some("true"@) || facts.can_elevate {
        Isolation::Systemd
    } else {
        Isolation::Unpinned
    }
}

/// A program and its arguments, to be run for its effect. That it fails does not matter.
#[derive(Debug)]
pub struct HookCall {
    pub program: String,
    pub args: Vec<String>,
}

impl Isolation {
    /// How the benchmark is isolated, and what is to be run first, for which `pid` is this process.
    ///
    /// Without the programs of the image, systemd is used where it was asked for or where no
    /// password is needed, so that nobody is asked who does not wait for it.
    pub fn resolve(facts: IsolationFacts<'_>, pid: u32) -> (r: (Self, Option<HookCall>))
        ensures
            r.0 == isolation_of(facts),
            match r.1 {
                Some(call) => r.0 is Hooks && call.program@ == PRE_BENCH_HOOK@
                    && call.args.deep_view() == seq![crate::numeral::decimal(pid as nat)],
                None => !(r.0 is Hooks),
            },
    {
        if !facts.is_linux {
            return (Isolation::Unpinned, None);
        }
        let forced: bool = match facts.setting {
            Some(setting) => {
                if str_eq(setting, "false") {
                    return (Isolation::Unpinned, None);
                }
                str_eq(setting, "true")
            },
            None => false,
        };
        proof {
            reveal_strlit("true");
            reveal_strlit("false");
            assert("true"@.len() != "false"@.len());
        }
        if facts.hook_is_executable {
            let mut args: Vec<String> = Vec::new();
            args.push(u64_to_decimal(pid as u64));
            assert(args.deep_view() =~= seq![crate::numeral::decimal(pid as nat)]);
            return (
                Isolation::Hooks,
                Some(HookCall { program: PRE_BENCH_HOOK.to_owned(), args }),
            );
        }
        if forced || facts.can_elevate {
            return (Isolation::Systemd, None);
        }
        (Isolation::Unpinned, None)
    }

    /// What is to be run when the benchmark is over.
    pub fn teardown(&self) -> (r: Option<HookCall>)
        ensures
            match r {
                Some(call) => *self is Hooks && call.program@ == POST_BENCH_HOOK@
                    && call.args.deep_view() == Seq::<Seq<char>>::empty(),
                None => !(*self is Hooks),
            },
    {
        match self {
            Isolation::Hooks => {
                let args: Vec<String> = Vec::new();
                assert(args.deep_view() =~= seq![]);
                Some(HookCall { program: POST_BENCH_HOOK.to_owned(), args })
            },
            _ => None,
        }
    }

    /// Whether the profiler needs privileges.
    pub fn requires_sudo(&self) -> (r: bool)
        ensures
            r == (*self is Systemd),
    {
        matches!(self, Isolation::Systemd)
    }

    /// The benchmark as it is run when isolated. The profiler is run around it, so nothing but the
    /// benchmark is moved.
    pub fn wrap_bench(&self, bench_cmd: CommandBuilder, scope: ScopeFacts) -> (r: CommandBuilder)
        ensures
            match *self {
                Isolation::Unpinned => r == bench_cmd,
                Isolation::Hooks => r.words() == seq![WRAP_BENCH_HOOK@] + bench_cmd.words()
                    && r.cwd_view() == bench_cmd.cwd_view(),
                Isolation::Systemd => r.words() == scope_words(scope) + bench_cmd.words()
                    && r.cwd_view() == bench_cmd.cwd_view() && (!scope.is_linux ==> r == bench_cmd),
            },
    {
        match self {
            Isolation::Unpinned => bench_cmd,
            Isolation::Hooks => wrap_with_hook(bench_cmd),
            Isolation::Systemd => wrap_isolation_scope(bench_cmd, scope),
        }
    }
}

/// What a scope of systemd is made with.
#[derive(Debug, Clone, Copy)]
pub struct ScopeFacts {
    /// Elsewhere there are no scopes.
    pub is_linux: bool,
    /// Whether what the runner does is to be shown in detail.
    pub debug: bool,
    pub uid: u32,
    pub gid: u32,
}

/// The command that runs another in a scope of `codspeed.slice`. There is none but on Linux.
pub open spec fn scope_words(scope: ScopeFacts) -> Seq<Seq<char>> {
    if !scope.is_linux {
        seq![]
    } else {
        seq!["systemd-run"@] + (if scope.debug {
            seq![]
        } else {
            seq!["--quiet"@]
        }) + seq![
            "--slice=codspeed.slice"@,
            "--scope"@,
            "--same-dir"@,
            "--uid="@ + crate::numeral::decimal(scope.uid as nat),
            "--gid="@ + crate::numeral::decimal(scope.gid as nat),
            "--"@,
        ]
    }
}

/// Runs the benchmark through the program that moves itself onto the cores and becomes the
/// benchmark.
fn wrap_with_hook(bench_cmd: CommandBuilder) -> (r: CommandBuilder)
    ensures
        r.words() == seq![WRAP_BENCH_HOOK@] + bench_cmd.words(),
        r.cwd_view() == bench_cmd.cwd_view(),
{
    let mut cmd = bench_cmd;
    let none: Vec<String> = Vec::new();
    assert(none.deep_view() =~= seq![]);
    cmd.wrap(WRAP_BENCH_HOOK, &none);
    assert(cmd.words() =~= seq![WRAP_BENCH_HOOK@] + bench_cmd.words());
    cmd
}

/// Runs the benchmark in a scope of `codspeed.slice`, as the current user. A scope keeps it below
/// this process, and in the same directory. Elsewhere than on Linux the benchmark is run as it is.
fn wrap_isolation_scope(bench_cmd: CommandBuilder, scope: ScopeFacts) -> (r: CommandBuilder)
    ensures
        r.words() == scope_words(scope) + bench_cmd.words(),
        r.cwd_view() == bench_cmd.cwd_view(),
        !scope.is_linux ==> r == bench_cmd,
{
    if !scope.is_linux {
        assert(scope_words(scope) + bench_cmd.words() =~= bench_cmd.words());
        return bench_cmd;
    }
    let mut wrapper = CommandBuilder::new("systemd-run");
    if !scope.debug {
        wrapper.arg("--quiet");
    }
    wrapper.arg("--slice=codspeed.slice");
    wrapper.arg("--scope");
    wrapper.arg("--same-dir");
    let mut uid = "--uid=".to_owned();
    uid.append(u64_to_decimal(scope.uid as u64).as_str());
    let mut gid = "--gid=".to_owned();
    gid.append(u64_to_decimal(scope.gid as u64).as_str());
    wrapper.arg(uid.as_str());
    wrapper.arg(gid.as_str());
    wrapper.arg("--");
    assert(wrapper.words() =~= scope_words(scope));
    let mut cmd = bench_cmd;
    cmd.wrap_with(wrapper);
    assert(cmd.words() =~= scope_words(scope) + bench_cmd.words());
    cmd
}

/// Whether a file can be run as a hook: it is a file, and someone may execute it. There are no hooks
/// but on Linux.
pub fn hook_is_executable(is_linux: bool, is_file: bool, mode: u32) -> (r: bool)
    ensures
        r == (is_linux && is_file && mode & 0o111 != 0),
{
    is_linux && is_file && mode & 0o111 != 0
}

/// The benchmark that was handed over is run in full, as the end of the command, whatever the
/// isolation.
pub proof fn law_isolation_keeps_the_benchmark(scope: ScopeFacts, words: Seq<Seq<char>>)
    ensures
        words.is_suffix_of(seq![WRAP_BENCH_HOOK@] + words),
        words.is_suffix_of(scope_words(scope) + words),
{
    assert((seq![WRAP_BENCH_HOOK@] + words).skip(1) =~= words);
    assert((scope_words(scope) + words).skip(scope_words(scope).len() as int) =~= words);
}

/// Nobody is asked for a password unless isolation was asked for.
pub proof fn law_no_prompt_unless_asked(facts: IsolationFacts)
    requires
        !facts.can_elevate,
        crate::text::text_of(facts.setting) != Some("true"@),
    ensures
        !(isolation_of(facts) is Systemd),
{
}

/// A benchmark is isolated on Linux unless that is turned off: by the programs of the image where they
/// can be run, and otherwise by systemd where that was asked for or needs no password. The programs
/// are told which process starts the benchmark.
pub proof fn law_isolation_is_chosen(
    facts: IsolationFacts<'_>,
    pid: u32,
    r: (Isolation, Option<HookCall>),
    sudo: bool,
    after: Option<HookCall>,
)
    requires
        call_ensures(Isolation::resolve, (facts, pid), r),
        call_ensures(Isolation::requires_sudo, (&r.0,), sudo),
        call_ensures(Isolation::teardown, (&r.0,), after),
    ensures
        !facts.is_linux ==> r.0 is Unpinned,
        facts.setting matches Some(setting) ==> (setting@ == "false"@ ==> r.0 is Unpinned),
        ({
            let off = !facts.is_linux || (facts.setting matches Some(setting) && setting@
                == "false"@);
            let on = facts.setting matches Some(setting) && setting@ == "true"@;
            &&& !off && facts.hook_is_executable ==> r.0 is Hooks
            &&& !off && !facts.hook_is_executable ==> (r.0 is Systemd <==> on || facts.can_elevate)
            &&& !off && !facts.hook_is_executable ==> !(r.0 is Hooks)
        }),
        r.1 is Some <==> r.0 is Hooks,
        r.1 matches Some(call) ==> call.program@ == "/usr/local/bin/codspeed-pre-bench"@
            && call.args@.len() == 1 && crate::numeral::numeral_value(call.args@[0]@, false) == Some(
            pid as int,
        ),
        after is Some <==> r.0 is Hooks,
        after matches Some(call) ==> call.program@ == "/usr/local/bin/codspeed-post-bench"@
            && call.args@.len() == 0,
        sudo <==> r.0 is Systemd,
{
    if let Some(call) = r.1 {
        let args = call.args.deep_view();
        assert(args.len() == call.args@.len());
        assert(args[0] == call.args@[0]@);
        crate::numeral::law_decimal_reads_back(pid as nat);
    }
    if let Some(call) = after {
        assert(call.args.deep_view().len() == call.args@.len());
    }
}

/// The benchmark is run in full at the end of the command, in the directory that was set for it,
/// whatever the isolation. Nothing comes before it where it is not isolated, and the program of the
/// image alone where that isolates it.
pub proof fn law_benchmark_ends_the_command(
    isolation: &Isolation,
    bench: CommandBuilder,
    scope: ScopeFacts,
    r: CommandBuilder,
)
    requires
        call_ensures(Isolation::wrap_bench, (isolation, bench, scope), r),
    ensures
        bench.words().is_suffix_of(r.words()),
        r.cwd_view() == bench.cwd_view(),
        *isolation is Unpinned || (*isolation is Systemd && !scope.is_linux) ==> r.words()
            == bench.words(),
        *isolation is Hooks ==> r.words().len() == bench.words().len() + 1 && r.words()[0]
            == "/usr/local/bin/codspeed-wrap-bench"@,
        *isolation is Systemd && scope.is_linux ==> r.words()[0] == "systemd-run"@
            && r.words()[r.words().len() - bench.words().len() - 1] == "--"@,
{
    law_isolation_keeps_the_benchmark(scope, bench.words());
    assert(bench.words().skip(0) =~= bench.words());
}

/// systemd runs the benchmark in a scope of `codspeed.slice`, in the same directory, as the current
/// user and group, and says so only where details are shown.
pub proof fn law_scope_is_of_the_user(scope: ScopeFacts)
    requires
        scope.is_linux,
    ensures
        scope_words(scope)[0] == "systemd-run"@,
        scope_words(scope).contains("--slice=codspeed.slice"@),
        scope_words(scope).contains("--scope"@),
        scope_words(scope).contains("--same-dir"@),
        scope_words(scope).contains("--uid="@ + crate::numeral::decimal(scope.uid as nat)),
        scope_words(scope).contains("--gid="@ + crate::numeral::decimal(scope.gid as nat)),
        scope_words(scope)[1] == "--quiet"@ <==> !scope.debug,
        scope_words(scope).last() == "--"@,
{
    reveal_strlit("--quiet");
    reveal_strlit("--slice=codspeed.slice");
    let all = scope_words(scope);
    let n: int = if scope.debug {
        1
    } else {
        2
    };
    assert(all[n] == "--slice=codspeed.slice"@);
    assert("--quiet"@[2] == 'q' && "--slice=codspeed.slice"@[2] == 's');
    assert(all[n + 1] == "--scope"@);
    assert(all[n + 2] == "--same-dir"@);
    assert(all[n + 3] == "--uid="@ + crate::numeral::decimal(scope.uid as nat));
    assert(all[n + 4] == "--gid="@ + crate::numeral::decimal(scope.gid as nat));
    assert(all[n + 5] == "--"@);
    assert(all.len() == n + 6);
}

} // verus!
