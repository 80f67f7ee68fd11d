use codspeed::runner_shared::perf_event::{is_genuine_intel, Cpu, PerfEvent};

const CPUS: [Cpu; 4] = [
    Cpu::X86 { genuine_intel: true },
    Cpu::X86 { genuine_intel: false },
    Cpu::Aarch64,
    Cpu::Other,
];

#[test]
fn portable_slots_have_samply_specs() {
    for cpu in CPUS {
        assert_eq!(
            PerfEvent::CpuCycles.to_samply_spec(cpu).unwrap(),
            "cpu-cycles:0:0x0"
        );
        assert_eq!(
            PerfEvent::Instructions.to_samply_spec(cpu).unwrap(),
            "instructions:0:0x1"
        );
    }
}

#[test]
fn event_names_are_unique() {
    let mut names: Vec<_> = PerfEvent::all_events()
        .iter()
        .map(|event| event.to_perf_string())
        .collect();
    names.sort();
    names.dedup();
    assert_eq!(names.len(), PerfEvent::all_events().len());
}

#[test]
fn print_specs_for_this_host() {
    for event in PerfEvent::all_events() {
        for cpu in CPUS {
            println!("{event:?} -> {:?}", event.to_samply_spec(cpu));
        }
    }
}

#[test]
fn cache_events_are_known_for_intel_and_arm() {
    for event in [PerfEvent::L1DCache, PerfEvent::L2DCache, PerfEvent::CacheMisses] {
        assert!(event.to_samply_spec(CPUS[0]).is_some());
        assert!(event.to_samply_spec(CPUS[1]).is_none());
        assert!(event.to_samply_spec(CPUS[2]).is_some());
        assert!(event.to_samply_spec(CPUS[3]).is_none());
        assert_eq!(
            event.perf_event_attr(CPUS[0]).map(|(_, config)| config),
            event.raw_cache_config(CPUS[0])
        );
    }
    assert!(PerfEvent::CpuCycles.raw_cache_config(CPUS[0]).is_none());
    assert_eq!(PerfEvent::CpuCycles.perf_event_attr(CPUS[3]), Some((0, 0)));
    assert_eq!(PerfEvent::Instructions.perf_event_attr(CPUS[3]), Some((0, 1)));
}

#[test]
fn vendor_is_read_from_registers() {
    let word = |text: &[u8; 4]| u32::from_le_bytes(*text);
    assert!(is_genuine_intel(word(b"Genu"), word(b"ineI"), word(b"ntel")));
    assert!(!is_genuine_intel(word(b"Auth"), word(b"enti"), word(b"cAMD")));
}
