//! The events that profilers count.
use linux_perf_event_reader::constants::{
    PERF_COUNT_HW_CPU_CYCLES, PERF_COUNT_HW_INSTRUCTIONS, PERF_TYPE_HARDWARE, PERF_TYPE_RAW,
};
use vstd::prelude::*;

use crate::numeral::{u64_to_decimal, u64_to_hex};

verus! {

/// The processors that events are known for.
#[derive(Debug, Clone, Copy, PartialEq, Eq, Structural)]
pub enum Cpu {
    /// An x86-64 processor. The cache events of Intel are known, those of others are not.
    X86 { genuine_intel: bool },
    Aarch64,
    Other,
}

/// The events that are supported.
///
/// Each stands for a role in the model of caches and execution. It has a name, and on a given
/// processor an event that it is counted by.
#[derive(Debug, Clone, Copy, PartialEq, Eq, Structural)]
pub enum PerfEvent {
    CpuCycles,
    /// Accesses to the first data cache.
    L1DCache,
    /// Accesses to the level below the first, to which its misses go. The hits of the first are
    /// those of [`Self::L1DCache`] less these.
    L2DCache,
    /// Misses of the last cache that is counted, which go to memory. The hits below the first are
    /// those of [`Self::L2DCache`] less these.
    CacheMisses,
    Instructions,
}

/// The numbers that the kernel gives to kinds of events and to general events.
#[derive(Debug, Clone, Copy, PartialEq, Eq, Structural)]
pub struct PerfNumbers {
    pub hardware: u32,
    pub raw: u32,
    pub cpu_cycles: u8,
    pub instructions: u8,
}

/// The constants of `linux_perf_event_reader`, which are those of the kernel's `perf_event.h`.
#[verifier::external_body]
fn perf_numbers() -> (r: PerfNumbers)
    ensures
        r == kernel_numbers(),
{
    PerfNumbers {
        hardware: PERF_TYPE_HARDWARE,
        raw: PERF_TYPE_RAW,
        cpu_cycles: PERF_COUNT_HW_CPU_CYCLES,
        instructions: PERF_COUNT_HW_INSTRUCTIONS,
    }
}

/// The numbers of the kernel.
pub open spec fn kernel_numbers() -> PerfNumbers {
    PerfNumbers { hardware: 0, raw: 4, cpu_cycles: 0, instructions: 1 }
}

impl PerfEvent {
    /// The name of the event.
    pub open spec fn name(self) -> Seq<char> {
        match self {
            PerfEvent::CpuCycles => "cpu-cycles"@,
            PerfEvent::L1DCache => "l1d_cache"@,
            PerfEvent::L2DCache => "l2d_cache"@,
            PerfEvent::CacheMisses => "l2d_cache_refill"@,
            PerfEvent::Instructions => "instructions"@,
        }
    }

    /// The number by which the event is counted on a processor, where it is a cache event that is
    /// known there.
    pub open spec fn cache_config(self, cpu: Cpu) -> Option<u64> {
        match (cpu, self) {
            (Cpu::X86 { genuine_intel: true }, PerfEvent::L1DCache) => Some(0x81d0),
            (Cpu::X86 { genuine_intel: true }, PerfEvent::L2DCache) => Some(0x08d1),
            (Cpu::X86 { genuine_intel: true }, PerfEvent::CacheMisses) => Some(0x20d1),
            (Cpu::Aarch64, PerfEvent::L1DCache) => Some(0x04),
            (Cpu::Aarch64, PerfEvent::L2DCache) => Some(0x03),
            (Cpu::Aarch64, PerfEvent::CacheMisses) => Some(0x17),
            _ => None,
        }
    }

    /// The kind and the number by which the event is counted on a processor.
    pub open spec fn attr(self, cpu: Cpu) -> Option<(u32, u64)> {
        match self {
            PerfEvent::CpuCycles => Some(
                (kernel_numbers().hardware, kernel_numbers().cpu_cycles as u64),
            ),
            PerfEvent::Instructions => Some(
                (kernel_numbers().hardware, kernel_numbers().instructions as u64),
            ),
            _ => match self.cache_config(cpu) {
                Some(config) => Some((kernel_numbers().raw, config)),
                None => None,
            },
        }
    }

    /// The event as a profiler is told of it: its name, its kind and its number.
    pub open spec fn samply_spec(self, cpu: Cpu) -> Option<Seq<char>> {
        match self.attr(cpu) {
            Some((kind, config)) => Some(
                self.name() + seq![':'] + crate::numeral::decimal(kind as nat) + ":0x"@
                    + crate::numeral::hex(config as nat),
            ),
            None => None,
        }
    }

    /// The name of the event.
    pub fn to_perf_string(&self) -> (r: &'static str)
        ensures
            r@ == self.name(),
    {
        match self {
            PerfEvent::CpuCycles => "cpu-cycles",
            PerfEvent::L1DCache => "l1d_cache",
            PerfEvent::L2DCache => "l2d_cache",
            PerfEvent::CacheMisses => "l2d_cache_refill",
            PerfEvent::Instructions => "instructions",
        }
    }

    /// All events.
    pub open spec fn all() -> Seq<PerfEvent> {
        seq![
            PerfEvent::CpuCycles,
            PerfEvent::L1DCache,
            PerfEvent::L2DCache,
            PerfEvent::CacheMisses,
            PerfEvent::Instructions,
        ]
    }

    pub fn all_events() -> (r: Vec<PerfEvent>)
        ensures
            r@ == PerfEvent::all(),
    {
        let r = vec![
            PerfEvent::CpuCycles,
            PerfEvent::L1DCache,
            PerfEvent::L2DCache,
            PerfEvent::CacheMisses,
            PerfEvent::Instructions,
        ];
        assert(r@ =~= PerfEvent::all());
        r
    }

    /// The event as samply is told of it in `--perf-events`, or `None` where nothing suitable can
    /// be counted on the processor.
    ///
    /// It carries the same name as for perf, so that both profiles are read alike.
    pub fn to_samply_spec(&self, cpu: Cpu) -> (r: Option<String>)
        ensures
            r.deep_view() == self.samply_spec(cpu),
    {
        let Some((kind, config)) = self.perf_event_attr(cpu) else {
            return None;
        };
        let mut text = self.to_perf_string().to_owned();
        text.push(':');
        text.append(u64_to_decimal(kind as u64).as_str());
        text.append(":0x");
        text.append(u64_to_hex(config).as_str());
        assert(text@ =~= self.samply_spec(cpu)->0);
        Some(text)
    }

    /// The kind and the number by which the event is counted on a processor.
    pub fn perf_event_attr(&self, cpu: Cpu) -> (r: Option<(u32, u64)>)
        ensures
            r == self.attr(cpu),
    {
        let numbers = perf_numbers();
        match self {
            PerfEvent::CpuCycles => Some((numbers.hardware, numbers.cpu_cycles as u64)),
            PerfEvent::Instructions => Some((numbers.hardware, numbers.instructions as u64)),
            _ => match self.raw_cache_config(cpu) {
                Some(config) => Some((numbers.raw, config)),
                None => None,
            },
        }
    }

    /// The number by which a cache event is counted on a processor.
    ///
    /// On Intel these are retired loads by the level that served them. On Arm they are common
    /// events, and the refills of the first cache stand for the accesses to the second, as they are
    /// counted over the same accesses.
    pub fn raw_cache_config(&self, cpu: Cpu) -> (r: Option<u64>)
        ensures
            r == self.cache_config(cpu),
    {
        match cpu {
            Cpu::X86 { genuine_intel } => {
                if !genuine_intel {
                    return None;
                }
                match self {
                    PerfEvent::L1DCache => Some(0x81d0),
                    PerfEvent::L2DCache => Some(0x08d1),
                    PerfEvent::CacheMisses => Some(0x20d1),
                    _ => None,
                }
            },
            Cpu::Aarch64 => match self {
                PerfEvent::L1DCache => Some(0x04),
                PerfEvent::L2DCache => Some(0x03),
                PerfEvent::CacheMisses => Some(0x17),
                _ => None,
            },
            Cpu::Other => None,
        }
    }
}

/// The name of the vendor in the registers of the CPUID instruction: four letters each, the first
/// in the lowest byte.
pub open spec fn vendor_is_intel(ebx: u32, edx: u32, ecx: u32) -> bool {
    &&& ebx == 0x756e_6547
    &&& edx == 0x4965_6e69
    &&& ecx == 0x6c65_746e
}

/// Whether the registers that CPUID returns for leaf zero spell `GenuineIntel`.
pub fn is_genuine_intel(ebx: u32, edx: u32, ecx: u32) -> (r: bool)
    ensures
        r == vendor_is_intel(ebx, edx, ecx),
{
    ebx == 0x756e_6547 && edx == 0x4965_6e69 && ecx == 0x6c65_746e
}

/// Different events have different names.
pub proof fn law_event_names_are_unique(a: PerfEvent, b: PerfEvent)
    requires
        a.name() == b.name(),
    ensures
        a == b,
{
    reveal_strlit("cpu-cycles");
    reveal_strlit("l1d_cache");
    reveal_strlit("l2d_cache");
    reveal_strlit("l2d_cache_refill");
    reveal_strlit("instructions");
    assert("cpu-cycles"@[0] == 'c');
    assert("l1d_cache"@[1] == '1');
    assert("l2d_cache"@[1] == '2');
    assert("l2d_cache_refill"@[1] == '2');
    assert("l2d_cache"@.len() == 9);
    assert("l2d_cache_refill"@.len() == 16);
    assert("instructions"@[0] == 'i');
}

/// Cycles and instructions can be counted on every processor.
pub proof fn law_portable_events_have_specs(cpu: Cpu)
    ensures
        PerfEvent::CpuCycles.samply_spec(cpu) is Some,
        PerfEvent::Instructions.samply_spec(cpu) is Some,
{
}

/// Cycles and instructions are counted as events of the hardware, the accesses to caches as raw events,
/// on Intel by the loads that each level served and on Arm by its common events. On other processors
/// the accesses to caches are not counted.
pub proof fn law_how_events_are_counted(event: PerfEvent, cpu: Cpu, r: Option<(u32, u64)>)
    requires
        call_ensures(PerfEvent::perf_event_attr, (&event, cpu), r),
    ensures
        event is CpuCycles ==> r == Some((0u32, 0u64)),
        event is Instructions ==> r == Some((0u32, 1u64)),
        ({
            let cached = event is L1DCache || event is L2DCache || event is CacheMisses;
            let known = cpu is Aarch64 || (cpu matches Cpu::X86 { genuine_intel } && genuine_intel);
            cached ==> (r is Some <==> known)
        }),
        r matches Some((kind, config)) ==> (!(event is CpuCycles) && !(event is Instructions) ==> kind
            == 4),
        cpu matches Cpu::X86 { genuine_intel } ==> (genuine_intel ==> {
            &&& event is L1DCache ==> r == Some((4u32, 0x81d0u64))
            &&& event is L2DCache ==> r == Some((4u32, 0x08d1u64))
            &&& event is CacheMisses ==> r == Some((4u32, 0x20d1u64))
        }),
        cpu is Aarch64 ==> {
            &&& event is L1DCache ==> r == Some((4u32, 0x04u64))
            &&& event is L2DCache ==> r == Some((4u32, 0x03u64))
            &&& event is CacheMisses ==> r == Some((4u32, 0x17u64))
        },
{
}

/// What a profiler is told of an event is its name, its kind and its number, which can be read back.
pub proof fn law_events_are_told_by_name_and_number(
    event: PerfEvent,
    cpu: Cpu,
    attr: Option<(u32, u64)>,
    r: Option<String>,
)
    requires
        call_ensures(PerfEvent::perf_event_attr, (&event, cpu), attr),
        call_ensures(PerfEvent::to_samply_spec, (&event, cpu), r),
    ensures
        r is Some <==> attr is Some,
        r matches Some(text) ==> {
            let (kind, config) = attr->0;
            let start = event.name() + seq![':'] + crate::numeral::decimal(kind as nat) + seq![
                ':',
                '0',
                'x',
            ];
            &&& start.is_prefix_of(text@)
            &&& crate::numeral::hex_value(text@.skip(start.len() as int)) == config
        },
{
    if let Some(text) = r {
        let (kind, config) = attr->0;
        reveal_strlit(":0x");
        let start = event.name() + seq![':'] + crate::numeral::decimal(kind as nat) + seq![
            ':',
            '0',
            'x',
        ];
        assert(text@ =~= start + crate::numeral::hex(config as nat));
        assert(text@.subrange(0, start.len() as int) =~= start);
        assert(text@.skip(start.len() as int) =~= crate::numeral::hex(config as nat));
        crate::numeral::law_hex_reads_back(config as nat);
    }
}

/// The registers spell the vendor, four letters in each, the first in the lowest byte.
pub proof fn law_vendor_is_spelled(ebx: u32, edx: u32, ecx: u32, r: bool)
    requires
        call_ensures(is_genuine_intel, (ebx, edx, ecx), r),
    ensures
        r <==> ebx == 'G' as u32 + 256 * ('e' as u32) + 65536 * ('n' as u32) + 16777216 * ('u' as u32)
            && edx == 'i' as u32 + 256 * ('n' as u32) + 65536 * ('e' as u32) + 16777216 * ('I' as u32)
            && ecx == 'n' as u32 + 256 * ('t' as u32) + 65536 * ('e' as u32) + 16777216 * ('l' as u32),
{
}

/// All events are listed, each once.
pub proof fn law_all_events_are_listed(event: PerfEvent, all: Vec<PerfEvent>)
    requires
        call_ensures(PerfEvent::all_events, (), all),
    ensures
        all@.contains(event),
        all@.no_duplicates(),
{
    assert(all@[0] is CpuCycles && all@[1] is L1DCache && all@[2] is L2DCache && all@[3] is CacheMisses
        && all@[4] is Instructions);
    let k: int = match event {
        PerfEvent::CpuCycles => 0,
        PerfEvent::L1DCache => 1,
        PerfEvent::L2DCache => 2,
        PerfEvent::CacheMisses => 3,
        PerfEvent::Instructions => 4,
    };
    assert(all@[k] == event);
}

/// How a profiler spells the events.
pub proof fn law_events_have_names(event: &PerfEvent, r: &'static str)
    requires
        call_ensures(PerfEvent::to_perf_string, (event,), r),
    ensures
        r@ == match *event {
            PerfEvent::CpuCycles => "cpu-cycles"@,
            PerfEvent::L1DCache => "l1d_cache"@,
            PerfEvent::L2DCache => "l2d_cache"@,
            PerfEvent::CacheMisses => "l2d_cache_refill"@,
            PerfEvent::Instructions => "instructions"@,
        },
{
}

} // verus!
