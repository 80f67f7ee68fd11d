//! Tracking the memory of processes.
use vstd::prelude::*;

use super::memtrack::rmap::RmapSupport;
use super::memtrack::{BpfVariant, HostFacts, LoadPlan, MemtrackBpf, PageSizeError};
use crate::text::str_eq;

verus! {

/// How often events are read, in milliseconds.
pub const POLL_INTERVAL_MS: u64 = 10;

/// What is tracked.
#[derive(Debug, Clone, Copy)]
pub struct TrackerOptions {
    /// Whether the functions of allocators are watched, wherever code is mapped.
    pub allocators: bool,
    /// Whether the memory of processes is followed through the hooks on reverse mappings.
    pub rmap: bool,
}

impl Default for TrackerOptions {
    fn default() -> (r: Self)
        ensures
            r.allocators,
            !r.rmap,
    {
        TrackerOptions { allocators: true, rmap: false }
    }
}

/// The options that the values of the environment variables stand for, where they are set:
/// allocators are watched unless told otherwise, and hooks only where told so.
pub open spec fn options_of(allocators: Option<Seq<char>>, rmap: Option<Seq<char>>) -> TrackerOptions {
    TrackerOptions {
        allocators: allocators != Some("0"@) && allocators != Some("false"@),
        rmap: rmap == Some("1"@),
    }
}

impl TrackerOptions {
    /// The options that `CODSPEED_MEMTRACK_TRACK_ALLOCATORS` and `CODSPEED_MEMTRACK_TRACK_RMAP`
    /// stand for, where they are set.
    pub fn from_env(allocators: Option<&str>, rmap: Option<&str>) -> (r: Self)
        ensures
            r == options_of(crate::text::text_of(allocators), crate::text::text_of(rmap)),
    {
        let allocators = match allocators {
            Some(value) => !str_eq(value, "0") && !str_eq(value, "false"),
            None => true,
        };
        let rmap = match rmap {
            Some(value) => str_eq(value, "1"),
            None => false,
        };
        TrackerOptions { allocators, rmap }
    }
}

/// A step of starting a tracker.
#[derive(Debug, Clone, Copy, PartialEq, Eq, Structural)]
pub enum BuildStep {
    /// Lift the limit on locked memory, which older kernels count programs against. That it is
    /// refused does not matter.
    RaiseMemlockLimit,
    AttachTracepoints,
    /// Watch for code that is mapped.
    AttachExecWatcher,
    /// Start to attach probes to allocators as they are found.
    StartAttachWorker,
}

/// The steps of starting a tracker.
pub open spec fn build_steps(allocators: bool) -> Seq<BuildStep> {
    if allocators {
        seq![
            BuildStep::RaiseMemlockLimit,
            BuildStep::AttachTracepoints,
            BuildStep::AttachExecWatcher,
            BuildStep::StartAttachWorker,
        ]
    } else {
        seq![BuildStep::RaiseMemlockLimit, BuildStep::AttachTracepoints]
    }
}

/// A step of running a command under a tracker, once it is stopped before its first instruction.
#[derive(Debug, Clone, Copy, PartialEq, Eq, Structural)]
pub enum SpawnStep {
    /// Tell the attach worker which process to watch.
    SetRootPid(i32),
    AddTrackedPid(i32),
    /// Read events, with this many milliseconds in between.
    PollEvents(u64),
    Resume(i32),
}

/// The steps of running a command whose process is `pid`.
pub open spec fn spawn_steps(worker: bool, pid: i32) -> Seq<SpawnStep> {
    (if worker {
        seq![SpawnStep::SetRootPid(pid)]
    } else {
        seq![]
    }) + seq![
        SpawnStep::AddTrackedPid(pid),
        SpawnStep::PollEvents(POLL_INTERVAL_MS),
        SpawnStep::Resume(pid),
    ]
}

/// A command was to be run after the tracker was finished, when code that it maps would be missed.
#[derive(Debug, Clone, Copy, PartialEq, Eq)]
pub struct AlreadyFinished;

impl AlreadyFinished {
    /// The text of the error.
    pub fn message(&self) -> (r: String)
        ensures
            r@ == "tracker already finished"@,
    {
        "tracker already finished".to_owned()
    }
}

/// A tracker, with the links `L` by which its programs are attached.
#[derive(Debug)]
pub struct Tracker<L> {
    bpf: MemtrackBpf<L>,
    /// Whether the attach worker runs.
    worker: bool,
    allocators: bool,
}

impl<L> Tracker<L> {
    pub closed spec fn links(self) -> Seq<L> {
        self.bpf.probes@
    }

    pub closed spec fn variant(self) -> BpfVariant {
        self.bpf.variant
    }

    pub closed spec fn rmap(self) -> RmapSupport {
        self.bpf.rmap
    }

    /// Whether the attach worker runs.
    pub closed spec fn has_worker(self) -> bool {
        self.worker
    }

    /// Whether allocators are watched.
    pub closed spec fn watches_allocators(self) -> bool {
        self.allocators
    }

    /// Whether commands are not run, as code that they map would be missed.
    pub open spec fn refuses_commands(self) -> bool {
        !self.has_worker() && self.watches_allocators()
    }

    /// How to load the programs of a tracker with the options of the environment.
    pub fn new(
        allocators: Option<&str>,
        rmap: Option<&str>,
        token_path: Option<&str>,
        token_is_dir: bool,
        host: HostFacts,
    ) -> (r: Result<(LoadPlan, bool), PageSizeError>)
        ensures
            planned(
                super::memtrack::BpfVariant::Token,
                token_path matches Some(p) && p@.len() > 0 && token_is_dir,
                options_of(crate::text::text_of(allocators), crate::text::text_of(rmap)),
                host,
                r,
            ),
    {
        Self::with_options(
            TrackerOptions::from_env(allocators, rmap),
            token_path,
            token_is_dir,
            host,
        )
    }

    /// How to load the programs of a tracker with these options, and whether it watches allocators.
    pub fn with_options(
        options: TrackerOptions,
        token_path: Option<&str>,
        token_is_dir: bool,
        host: HostFacts,
    ) -> (r: Result<(LoadPlan, bool), PageSizeError>)
        ensures
            planned(
                super::memtrack::BpfVariant::Token,
                token_path matches Some(p) && p@.len() > 0 && token_is_dir,
                options,
                host,
                r,
            ),
    {
        match MemtrackBpf::<L>::new_with_rmap(options.rmap, token_path, token_is_dir, host) {
            Ok(plan) => Ok((plan, options.allocators)),
            Err(error) => Err(error),
        }
    }

    /// How to load the programs of a tracker with the options of the environment, but in one variant.
    pub fn with_variant(
        variant: BpfVariant,
        allocators: Option<&str>,
        rmap: Option<&str>,
        host: HostFacts,
    ) -> (r: Result<(LoadPlan, bool), PageSizeError>)
        ensures
            planned(
                variant,
                true,
                options_of(crate::text::text_of(allocators), crate::text::text_of(rmap)),
                host,
                r,
            ),
    {
        let options = TrackerOptions::from_env(allocators, rmap);
        match MemtrackBpf::<L>::with_variant(variant, options.rmap, host) {
            Ok(plan) => Ok((plan, options.allocators)),
            Err(error) => Err(error),
        }
    }

    /// The steps in which a tracker with loaded programs is started.
    pub fn steps(allocators: bool) -> (r: Vec<BuildStep>)
        ensures
            r@ == build_steps(allocators),
    {
        let mut steps: Vec<BuildStep> = Vec::new();
        steps.push(BuildStep::RaiseMemlockLimit);
        steps.push(BuildStep::AttachTracepoints);
        if allocators {
            steps.push(BuildStep::AttachExecWatcher);
            steps.push(BuildStep::StartAttachWorker);
        }
        assert(steps@ =~= build_steps(allocators));
        steps
    }

    /// The tracker, after the steps were taken.
    pub fn build(bpf: MemtrackBpf<L>, allocators: bool) -> (r: Self)
        ensures
            r.links() == bpf.probes@,
            r.variant() == bpf.variant,
            r.rmap() == bpf.rmap,
            r.has_worker() == allocators,
            r.watches_allocators() == allocators,
    {
        Tracker { bpf, worker: allocators, allocators }
    }

    /// The steps in which a command is run that has been started, as the process `pid`, and stopped.
    /// Its process is known to the tracker before it is resumed, so nothing that it maps is missed.
    pub fn spawn(&self, pid: i32) -> (r: Result<Vec<SpawnStep>, AlreadyFinished>)
        ensures
            match r {
                Ok(steps) => !self.refuses_commands() && steps@ == spawn_steps(
                    self.has_worker(),
                    pid,
                ),
                Err(_) => self.refuses_commands(),
            },
    {
        let mut steps: Vec<SpawnStep> = Vec::new();
        if self.worker {
            steps.push(SpawnStep::SetRootPid(pid));
        } else if self.allocators {
            return Err(AlreadyFinished);
        }
        steps.push(SpawnStep::AddTrackedPid(pid));
        steps.push(SpawnStep::PollEvents(POLL_INTERVAL_MS));
        steps.push(SpawnStep::Resume(pid));
        assert(steps@ =~= spawn_steps(self.worker, pid));
        Ok(steps)
    }

    /// Takes note that the attach worker ends, and tells whether it ran: only then it is to be
    /// stopped, and the error that it met, if any, is that of the tracker.
    pub fn finish(&mut self) -> (r: bool)
        ensures
            r == old(self).has_worker(),
            finished(*old(self), *final(self)),
    {
        let worker = self.worker;
        self.worker = false;
        worker
    }

    /// Takes all links, in groups to be closed by one thread each.
    pub fn detach(&mut self) -> (r: Vec<Vec<L>>)
        ensures
            final(self).links().len() == 0,
            final(self).has_worker() == old(self).has_worker(),
            final(self).watches_allocators() == old(self).watches_allocators(),
            final(self).variant() == old(self).variant(),
            final(self).rmap() == old(self).rmap(),
            r@.len() == super::memtrack::chunks(
                old(self).links(),
                super::memtrack::chunk_size(old(self).links().len()),
            ).len(),
            forall|i: int|
                0 <= i < r@.len() ==> (#[trigger] r@[i])@ == super::memtrack::chunks(
                    old(self).links(),
                    super::memtrack::chunk_size(old(self).links().len()),
                )[i],
    {
        self.bpf.detach_probes()
    }
}

/// How the programs of a tracker are loaded: in `variant` where `chosen`, and in the legacy one
/// otherwise.
pub open spec fn planned(
    variant: BpfVariant,
    chosen: bool,
    options: TrackerOptions,
    host: HostFacts,
    r: Result<(LoadPlan, bool), PageSizeError>,
) -> bool {
    let v = if chosen {
        variant
    } else {
        BpfVariant::Legacy
    };
    match r {
        Ok((plan, allocators)) => allocators == options.allocators && super::memtrack::load_plan(
            v,
            options.rmap,
            host,
            Ok(plan),
        ),
        Err(error) => super::memtrack::load_plan(v, options.rmap, host, Err(error)),
    }
}

/// Whether `after` is the tracker `before` once it is finished.
pub open spec fn finished<L>(before: Tracker<L>, after: Tracker<L>) -> bool {
    &&& !after.has_worker()
    &&& after.watches_allocators() == before.watches_allocators()
    &&& after.links() == before.links()
    &&& after.variant() == before.variant()
    &&& after.rmap() == before.rmap()
}

/// A finished tracker refuses commands if it watches allocators, and only then.
pub proof fn law_finished_tracker_refuses<L>(before: Tracker<L>, after: Tracker<L>)
    requires
        finished(before, after),
    ensures
        after.refuses_commands() <==> before.watches_allocators(),
{
}

/// Finishing a tracker again changes nothing.
pub proof fn law_finish_is_idempotent<L>(before: Tracker<L>, once: Tracker<L>, twice: Tracker<L>)
    requires
        finished(before, once),
        finished(once, twice),
    ensures
        twice.has_worker() == once.has_worker(),
        finished(before, twice),
{
}

/// A command is known to the tracker before it is resumed.
pub proof fn law_pid_is_tracked_before_resume(worker: bool, pid: i32)
    ensures
        spawn_steps(worker, pid).last() == SpawnStep::Resume(pid),
        spawn_steps(worker, pid).drop_last().contains(SpawnStep::AddTrackedPid(pid)),
        worker ==> spawn_steps(worker, pid)[0] == SpawnStep::SetRootPid(pid),
{
    let s = spawn_steps(worker, pid).drop_last();
    assert(s[if worker {
        1
    } else {
        0
    }] == SpawnStep::AddTrackedPid(pid));
}

/// Allocators are watched unless that is turned off, and hooks on reverse mappings are used only where
/// they are turned on.
pub proof fn law_options_of_the_environment(
    allocators: Option<&str>,
    rmap: Option<&str>,
    r: TrackerOptions,
)
    requires
        call_ensures(TrackerOptions::from_env, (allocators, rmap), r),
    ensures
        allocators is None ==> r.allocators,
        allocators matches Some(value) ==> (r.allocators <==> value@ != "0"@ && value@ != "false"@),
        rmap is None ==> !r.rmap,
        rmap matches Some(value) ==> (r.rmap <==> value@ == "1"@),
{
}

/// A tracker is loaded for the host with what its options ask for: hooks only where they are on, and
/// allocators are watched where they are on.
pub proof fn law_tracker_follows_its_options<L>(
    options: TrackerOptions,
    token_path: Option<&str>,
    token_is_dir: bool,
    host: HostFacts,
    r: Result<(LoadPlan, bool), PageSizeError>,
    plan: Result<LoadPlan, PageSizeError>,
)
    requires
        call_ensures(Tracker::<L>::with_options, (options, token_path, token_is_dir, host), r),
        call_ensures(
            MemtrackBpf::<L>::new_with_rmap,
            (options.rmap, token_path, token_is_dir, host),
            plan,
        ),
    ensures
        r is Ok <==> plan is Ok,
        r matches Ok((p, watched)) ==> {
            &&& watched == options.allocators
            &&& p.variant == plan->Ok_0.variant
            &&& p.page_shift == plan->Ok_0.page_shift
            &&& p.target_pidns == plan->Ok_0.target_pidns
            &&& p.rmap == plan->Ok_0.rmap
            &&& p.disabled.deep_view() == plan->Ok_0.disabled.deep_view()
        },
{
}

/// A tracker follows processes in any case; it watches for code that is mapped, and attaches probes to
/// the allocators in it, where allocators are watched. Code is watched before probes are attached.
pub proof fn law_steps_of_starting<L>(allocators: bool, steps: Vec<BuildStep>)
    requires
        call_ensures(Tracker::<L>::steps, (allocators,), steps),
    ensures
        steps@.contains(BuildStep::AttachTracepoints),
        steps@[0] == BuildStep::RaiseMemlockLimit,
        steps@.contains(BuildStep::AttachExecWatcher) <==> allocators,
        steps@.contains(BuildStep::StartAttachWorker) <==> allocators,
        allocators ==> steps@.last() == BuildStep::StartAttachWorker,
{
    assert(steps@[1] == BuildStep::AttachTracepoints);
    if allocators {
        assert(steps@[2] == BuildStep::AttachExecWatcher);
        assert(steps@[3] == BuildStep::StartAttachWorker);
    }
}

/// A command is run under a tracker unless the tracker was finished while it watched allocators. Events
/// are read before the command is resumed, every ten milliseconds.
pub proof fn law_command_is_run_unless_finished<L>(
    tracker: &Tracker<L>,
    pid: i32,
    r: Result<Vec<SpawnStep>, AlreadyFinished>,
)
    requires
        call_ensures(Tracker::<L>::spawn, (tracker, pid), r),
    ensures
        r is Err <==> !tracker.has_worker() && tracker.watches_allocators(),
        r matches Ok(steps) ==> {
            &&& steps@.last() == SpawnStep::Resume(pid)
            &&& steps@.drop_last().contains(SpawnStep::PollEvents(10))
            &&& steps@.drop_last().contains(SpawnStep::AddTrackedPid(pid))
            &&& steps@.contains(SpawnStep::SetRootPid(pid)) <==> tracker.has_worker()
        },
{
    if let Ok(steps) = r {
        law_pid_is_tracked_before_resume(tracker.has_worker(), pid);
        let first = steps@.drop_last();
        let n: int = if tracker.has_worker() {
            2
        } else {
            1
        };
        assert(first[n] == SpawnStep::PollEvents(10));
        if tracker.has_worker() {
            assert(steps@[0] == SpawnStep::SetRootPid(pid));
        }
    }
}

/// A tracker that finishes stops its worker and keeps all else. It tells whether there was one.
pub proof fn law_finishing_stops_the_worker<L>(tracker: &mut Tracker<L>, r: bool)
    requires
        call_ensures(Tracker::<L>::finish, (tracker,), r),
    ensures
        r == old(tracker).has_worker(),
        !final(tracker).has_worker(),
        final(tracker).links() == old(tracker).links(),
        final(tracker).watches_allocators() == old(tracker).watches_allocators(),
        final(tracker).variant() == old(tracker).variant(),
        final(tracker).rmap() == old(tracker).rmap(),
{
}

/// A tracker that detaches gives all its links away, each once, in at most 32 groups.
pub proof fn law_all_links_are_detached<L>(tracker: &mut Tracker<L>, r: Vec<Vec<L>>)
    requires
        call_ensures(Tracker::<L>::detach, (tracker,), r),
    ensures
        final(tracker).links().len() == 0,
        r@.len() <= 32,
        Seq::new(r@.len(), |i: int| r@[i]@).reverse().flatten() == old(tracker).links(),
        final(tracker).has_worker() == old(tracker).has_worker(),
{
    let links = old(tracker).links();
    super::memtrack::law_chunks_partition_links(links);
    assert(Seq::new(r@.len(), |i: int| r@[i]@) =~= super::memtrack::chunks(
        links,
        super::memtrack::chunk_size(links.len()),
    ));
}

} // verus!
