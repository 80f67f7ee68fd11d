use codspeed::memtrack::bpf_token::has_delegated_bpf_token;
use codspeed::memtrack::ebpf::memtrack::rmap::RmapSupport;
use codspeed::memtrack::ebpf::memtrack::{
    page_shift, probes_if_found, programs_to_disable, resolve_rows, symbol_file_offset, BpfVariant,
    HostFacts, MemtrackBpf, ResolvedSymbols, SymbolOffset,
};
use codspeed::memtrack::ebpf::tracker::{BuildStep, SpawnStep, Tracker, TrackerOptions};
use codspeed::memtrack::kernel::KernelVersion;
use codspeed::elf::{SectionPlace, SymbolRow};

#[test]
fn maps_releases_to_support_levels() {
    for (major, minor, expected) in [
        (5, 4, RmapSupport::Unsupported),
        (5, 15, RmapSupport::Unsupported),
        (6, 7, RmapSupport::Unsupported),
        (6, 8, RmapSupport::Core),
        (6, 11, RmapSupport::Core),
        (6, 14, RmapSupport::Core),
        (6, 15, RmapSupport::CoreAndPud),
        (7, 1, RmapSupport::CoreAndPud),
    ] {
        let version = KernelVersion::new(major, minor);
        assert_eq!(
            RmapSupport::for_version(version),
            expected,
            "kernel {version:?}"
        );
    }
}

#[test]
fn unknown_kernel_has_no_rmap_support() {
    assert_eq!(RmapSupport::detect(None), RmapSupport::Unsupported);
    assert_eq!(
        RmapSupport::detect(Some(KernelVersion::new(6, 12))),
        RmapSupport::Core
    );
}

#[test]
fn kernel_releases_are_ordered_by_major_then_minor() {
    assert!(KernelVersion::new(5, 19).is_before(KernelVersion::new(6, 0)));
    assert!(KernelVersion::new(6, 7).is_before(KernelVersion::new(6, 8)));
    assert!(!KernelVersion::new(6, 8).is_before(KernelVersion::new(6, 8)));
    assert!(!KernelVersion::new(7, 0).is_before(KernelVersion::new(6, 99)));
}

#[test]
fn token_needs_a_directory() {
    assert!(has_delegated_bpf_token(Some("/sys/fs/bpf/token"), true));
    assert!(!has_delegated_bpf_token(Some("/sys/fs/bpf/token"), false));
    assert!(!has_delegated_bpf_token(Some(""), true));
    assert!(!has_delegated_bpf_token(None, true));
}

#[test]
fn page_shift_counts_offset_bits() {
    assert_eq!(page_shift(4096), Ok(12));
    assert_eq!(page_shift(16384), Ok(14));
    assert_eq!(page_shift(1), Ok(0));
    assert!(page_shift(0).is_err());
    assert_eq!(
        page_shift(-1).unwrap_err().message(),
        "Failed to read system page size"
    );
}

#[test]
fn better_support_disables_fewer_programs() {
    assert_eq!(programs_to_disable(RmapSupport::Unsupported).len(), 9);
    assert_eq!(
        programs_to_disable(RmapSupport::Core),
        vec![
            "fentry_folio_add_file_rmap_pud",
            "fentry_folio_remove_rmap_pud"
        ]
    );
    assert!(programs_to_disable(RmapSupport::CoreAndPud).is_empty());
    let all = programs_to_disable(RmapSupport::Unsupported);
    for program in programs_to_disable(RmapSupport::Core) {
        assert!(all.contains(&program));
    }
}

fn row(name: Option<&str>, address: u64, is_definition: bool) -> SymbolRow {
    SymbolRow {
        address,
        size: 0,
        name: name.map(str::to_owned),
        is_definition,
        section: Some(1),
    }
}

#[test]
fn symbols_resolve_to_file_offsets() {
    let place = Some(SectionPlace {
        address: 0x1000,
        file_offset: Some(0x400),
    });
    assert_eq!(symbol_file_offset(&row(Some("f"), 0x1010, true), place), Some(0x410));
    assert_eq!(symbol_file_offset(&row(Some("f"), 0, true), place), None);
    assert_eq!(symbol_file_offset(&row(Some("f"), 0x1010, true), None), None);

    let symbols = resolve_rows(&vec![
        (row(Some("malloc"), 0x1010, true), place),
        (row(Some("free"), 0x1020, false), place),
        (row(None, 0x1030, true), place),
        (row(Some("malloc"), 0x1040, true), place),
    ]);
    assert_eq!(symbols.offset("malloc"), Some(0x440));
    assert_eq!(symbols.offset("free"), None);
}

#[test]
fn later_definitions_win() {
    let symbols = ResolvedSymbols::from_list(vec![
        SymbolOffset { name: "b".to_owned(), offset: 1 },
        SymbolOffset { name: "a".to_owned(), offset: 2 },
        SymbolOffset { name: "b".to_owned(), offset: 3 },
    ]);
    assert_eq!(symbols.offset("a"), Some(2));
    assert_eq!(symbols.offset("b"), Some(3));
    assert_eq!(symbols.offset("c"), None);
}

#[test]
fn probes_are_attached_at_entry_and_return() {
    let symbols = ResolvedSymbols::from_list(vec![SymbolOffset {
        name: "malloc".to_owned(),
        offset: 64,
    }]);
    let both = probes_if_found("/lib/libc.so.6", "malloc", &symbols, true).unwrap();
    assert_eq!(both.len(), 2);
    assert_eq!(both[0].offset, 64);
    assert!(!both[0].on_return);
    assert!(both[1].on_return);
    assert_eq!(both[1].library, "/lib/libc.so.6");
    assert_eq!(
        probes_if_found("/lib/libc.so.6", "malloc", &symbols, false).unwrap().len(),
        1
    );
    assert!(probes_if_found("/lib/libc.so.6", "calloc", &symbols, true).is_none());
}

fn host() -> HostFacts {
    HostFacts {
        page_size: 4096,
        kernel: Some(KernelVersion::new(6, 15)),
        pid_namespace: Some((4, 7)),
    }
}

#[test]
fn options_come_from_the_environment() {
    let options = TrackerOptions::from_env(None, None);
    assert!(options.allocators);
    assert!(!options.rmap);
    assert!(TrackerOptions::from_env(None, Some("1")).rmap);
    assert!(!TrackerOptions::from_env(None, Some("true")).rmap);
    assert!(TrackerOptions::default().allocators);
}

#[test]
fn token_decides_the_variant() {
    let (plan, allocators) =
        Tracker::<u32>::new(None, Some("1"), Some("/token"), true, host()).unwrap();
    assert!(allocators);
    assert_eq!(plan.variant, BpfVariant::Token);
    assert_eq!(plan.page_shift, 12);
    assert_eq!(plan.target_pidns, Some((4, 7)));
    assert_eq!(plan.rmap, RmapSupport::CoreAndPud);
    assert!(plan.disabled.is_empty());

    let (plan, _) = Tracker::<u32>::new(None, None, None, false, host()).unwrap();
    assert_eq!(plan.variant, BpfVariant::Legacy);
    assert_eq!(plan.rmap, RmapSupport::Unsupported);
    assert_eq!(plan.disabled.len(), 9);

    let (plan, allocators) =
        Tracker::<u32>::with_variant(BpfVariant::Token, None, None, host()).unwrap();
    assert_eq!(plan.variant, BpfVariant::Token);
    assert!(allocators);
    for off in ["0", "false"] {
        let (plan, allocators) =
            Tracker::<u32>::with_variant(BpfVariant::Token, Some(off), Some("1"), host()).unwrap();
        assert!(!allocators);
        assert_eq!(plan.rmap, RmapSupport::CoreAndPud);
    }

    let broken = HostFacts { page_size: 0, ..host() };
    assert!(Tracker::<u32>::new(None, None, None, false, broken).is_err());
}

fn tracker(allocators: bool, links: u32) -> Tracker<u32> {
    let (plan, _) = Tracker::<u32>::new(None, None, None, false, host()).unwrap();
    let mut bpf = MemtrackBpf::<u32>::loaded(&plan);
    assert_eq!(bpf.probe_count(), 0);
    for link in 0..links {
        bpf.probes.push(link);
    }
    Tracker::build(bpf, allocators)
}

#[test]
fn steps_depend_on_allocators() {
    assert_eq!(
        Tracker::<u32>::steps(false),
        vec![BuildStep::RaiseMemlockLimit, BuildStep::AttachTracepoints]
    );
    assert_eq!(
        Tracker::<u32>::steps(true),
        vec![
            BuildStep::RaiseMemlockLimit,
            BuildStep::AttachTracepoints,
            BuildStep::AttachExecWatcher,
            BuildStep::StartAttachWorker
        ]
    );
}

#[test]
fn pid_is_tracked_before_the_command_resumes() {
    let tracker = tracker(true, 0);
    assert_eq!(
        tracker.spawn(42).unwrap(),
        vec![
            SpawnStep::SetRootPid(42),
            SpawnStep::AddTrackedPid(42),
            SpawnStep::PollEvents(10),
            SpawnStep::Resume(42)
        ]
    );
}

#[test]
fn finished_tracker_refuses_commands() {
    let mut watching = tracker(true, 0);
    assert!(watching.finish());
    assert!(!watching.finish());
    let error = watching.spawn(1).unwrap_err();
    assert!(!error.message().is_empty());

    let mut plain = tracker(false, 0);
    assert!(!plain.finish());
    assert_eq!(plain.spawn(1).unwrap().len(), 3);
}

#[test]
fn links_are_closed_in_groups() {
    let mut tracker = tracker(true, 70);
    let groups = tracker.detach();
    let mut closed: Vec<u32> = groups.iter().flatten().copied().collect();
    closed.sort();
    assert_eq!(closed, (0..70).collect::<Vec<u32>>());
    assert!(groups.iter().all(|group| group.len() <= 3));
    assert!(tracker.detach().is_empty());
}
