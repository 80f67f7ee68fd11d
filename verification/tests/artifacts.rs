use std::collections::HashMap;

use codspeed::executor::helpers::debug_file::{
    debug_directories, debug_file_candidates, find_debug_file, FileState,
};
use codspeed::executor::wall_time::profiler::perf::debug_info::{
    debug_info_from_frames, debug_info_of_module, is_libc_filename, warn_missing_libc_debug_info,
    DebugFile, DebugInfoError, ModuleFiles, SourceRow,
};
use codspeed::executor::wall_time::profiler::perf::jit_dump::{
    is_readable, jit_dump_path, save_symbols_and_harvest_unwind_data_for_pids, symbols_of_records,
    unwind_data_of_records, JitDump, JitError, JitRecord, END_OF_DATA,
};
use codspeed::executor::wall_time::profiler::perf::loaded_module::{
    LoadedModule, ProcessLoadedModule,
};
use codspeed::executor::wall_time::profiler::perf::module_symbols::{
    ModuleSymbols, Symbol, SymbolsError,
};
use codspeed::executor::wall_time::profiler::perf::save_artifacts::{
    collect_ignored_modules, debug_info_by_path, save_artifacts,
};
use codspeed::executor::wall_time::profiler::perf::unwind_data::{
    try_unwind_data_from_elf, unwind_data_from_elf, LoadAddresses, UnwindError,
};
use codspeed::memtrack::ebpf::memtrack::{resolve_symbol_offsets, try_resolve_symbol_offsets};
use codspeed::runner_shared::debug_info::ModuleDebugInfo;
use codspeed::runner_shared::unwind_data::{ProcessUnwindData, UnwindData};

// -------------------------------------------------------------------------------------------
// Object files
// -------------------------------------------------------------------------------------------

struct Part {
    name: &'static str,
    kind: u32,
    address: u64,
    data: Vec<u8>,
    link: u32,
    entry_size: u64,
}

fn part(name: &'static str, kind: u32, address: u64, data: Vec<u8>) -> Part {
    Part { name, kind, address, data, link: 0, entry_size: 0 }
}

/// A little-endian 64-bit ELF file with these sections, which start 16 bytes apart at least.
fn elf(mut parts: Vec<Part>) -> Vec<u8> {
    let mut names = vec![0u8];
    let mut name_offsets = Vec::new();
    for part in &parts {
        name_offsets.push(names.len() as u32);
        names.extend_from_slice(part.name.as_bytes());
        names.push(0);
    }
    name_offsets.push(names.len() as u32);
    names.extend_from_slice(b".shstrtab\0");
    parts.push(part(".shstrtab", 3, 0, names));

    let mut body = vec![0u8; 64];
    let mut offsets = Vec::new();
    for part in &parts {
        while body.len() % 16 != 0 {
            body.push(0);
        }
        offsets.push(body.len() as u64);
        body.extend_from_slice(&part.data);
    }
    while body.len() % 16 != 0 {
        body.push(0);
    }
    let table = body.len() as u64;
    body.extend_from_slice(&[0u8; 64]);
    for (i, part) in parts.iter().enumerate() {
        body.extend_from_slice(&name_offsets[i].to_le_bytes());
        body.extend_from_slice(&part.kind.to_le_bytes());
        body.extend_from_slice(&2u64.to_le_bytes());
        body.extend_from_slice(&part.address.to_le_bytes());
        body.extend_from_slice(&offsets[i].to_le_bytes());
        body.extend_from_slice(&(part.data.len() as u64).to_le_bytes());
        body.extend_from_slice(&part.link.to_le_bytes());
        body.extend_from_slice(&0u32.to_le_bytes());
        body.extend_from_slice(&1u64.to_le_bytes());
        body.extend_from_slice(&part.entry_size.to_le_bytes());
    }

    let mut header = vec![0x7f, b'E', b'L', b'F', 2, 1, 1, 0];
    header.extend_from_slice(&[0u8; 8]);
    header.extend_from_slice(&3u16.to_le_bytes());
    header.extend_from_slice(&62u16.to_le_bytes());
    header.extend_from_slice(&1u32.to_le_bytes());
    header.extend_from_slice(&0u64.to_le_bytes());
    header.extend_from_slice(&0u64.to_le_bytes());
    header.extend_from_slice(&table.to_le_bytes());
    header.extend_from_slice(&0u32.to_le_bytes());
    for half in [64u16, 56, 0, 64, parts.len() as u16 + 1, parts.len() as u16] {
        header.extend_from_slice(&half.to_le_bytes());
    }
    body[..64].copy_from_slice(&header);
    body
}

/// A symbol table and its names, where the names are the section after it.
fn symbol_table(symbols: &[(&str, u64, u64)], names_at: u32) -> Vec<Part> {
    let mut names = vec![0u8];
    let mut table = vec![0u8; 24];
    for (name, address, size) in symbols {
        table.extend_from_slice(&(names.len() as u32).to_le_bytes());
        table.extend_from_slice(&[0x12, 0]);
        table.extend_from_slice(&1u16.to_le_bytes());
        table.extend_from_slice(&address.to_le_bytes());
        table.extend_from_slice(&size.to_le_bytes());
        names.extend_from_slice(name.as_bytes());
        names.push(0);
    }
    let mut rows = part(".symtab", 2, 0, table);
    rows.link = names_at;
    rows.entry_size = 24;
    vec![rows, part(".strtab", 3, 0, names)]
}

/// A file with code at 0x1000 and these symbols.
fn module(symbols: &[(&str, u64, u64)], more: Vec<Part>) -> Vec<u8> {
    let mut parts = vec![part(".text", 1, 0x1000, vec![0x90; 256])];
    parts.extend(symbol_table(symbols, 3));
    parts.extend(more);
    elf(parts)
}

fn symbol(name: &str, addr: u64, size: u64) -> Symbol {
    Symbol { addr, size, name: name.to_owned() }
}

#[test]
fn symbols_are_read_from_object_files() {
    let file = module(
        &[("helper", 0x1020, 0), ("main", 0x1000, 16), ("$x.1", 0x1010, 0), ("twin", 0x1000, 0)],
        vec![],
    );
    let symbols = ModuleSymbols::from_elf(&file, None).unwrap();
    assert_eq!(
        symbols.symbols(),
        [symbol("main", 0x1000, 16), symbol("twin", 0x1000, 0x20), symbol("helper", 0x1020, 0x1fe0)]
    );
    assert_eq!(symbols.addr_bounds(), Some((0x1000, 0x3000)));
}

#[test]
fn debug_files_add_symbols() {
    let file = module(&[("main", 0x1000, 16)], vec![]);
    let debug = module(&[("main", 0x1000, 16), ("inner", 0x1040, 8), ("main", 0x1080, 4)], vec![]);
    let symbols = ModuleSymbols::try_from_elf(&file, Some(&debug)).unwrap().unwrap();
    assert_eq!(
        symbols.symbols(),
        [symbol("main", 0x1000, 16), symbol("inner", 0x1040, 8), symbol("main", 0x1080, 4)]
    );
    let symbols = ModuleSymbols::from_elf(&file, Some(b"no object file")).unwrap();
    assert_eq!(symbols.symbols().len(), 1);
}

#[test]
fn files_without_symbols_are_refused() {
    assert!(matches!(
        ModuleSymbols::from_elf(b"no object file", None),
        Err(SymbolsError::Object(message)) if !message.is_empty()
    ));
    assert!(matches!(
        ModuleSymbols::from_elf(&module(&[], vec![]), None),
        Err(SymbolsError::NoSymbols)
    ));
    let last = module(&[("end", 0xffff_ffff_ffff_f000, 0)], vec![]);
    assert!(ModuleSymbols::try_from_elf(&last, None).is_none());
}

#[test]
fn symbols_are_written_in_lines() {
    let symbols = ModuleSymbols::new(vec![symbol("main", 0x1000, 16), symbol("a b", 0xff, 1)]);
    let file = symbols.save_to_keyed_file("/profile", "0__app");
    assert_eq!(file.path, "/profile/0__app.symbols.map");
    assert_eq!(file.text, "1000 10 main\nff 1 a b\n");
    assert_eq!(symbols.append_to_file("/x").path, "/x");
}

#[test]
fn probes_are_placed_by_file_offset() {
    let file = module(&[("malloc", 0x1010, 16), ("free", 0x1020, 16)], vec![]);
    let found = try_resolve_symbol_offsets(&file).unwrap().unwrap();
    // The code is the first section, right after the header.
    assert_eq!(found.offset("malloc"), Some(64 + 0x10));
    assert_eq!(found.offset("free"), Some(64 + 0x20));
    assert_eq!(found.offset("calloc"), None);
    assert!(resolve_symbol_offsets(b"no object file").is_err());
    let below = module(&[("early", 0x500, 16)], vec![]);
    assert!(try_resolve_symbol_offsets(&below).is_none());
}

fn build_id_note(id: &[u8]) -> Part {
    let mut data = Vec::new();
    data.extend_from_slice(&4u32.to_le_bytes());
    data.extend_from_slice(&(id.len() as u32).to_le_bytes());
    data.extend_from_slice(&3u32.to_le_bytes());
    data.extend_from_slice(b"GNU\0");
    data.extend_from_slice(id);
    part(".note.gnu.build-id", 7, 0x300, data)
}

fn debuglink(name: &str, crc: u32) -> Part {
    let mut data = name.as_bytes().to_vec();
    data.push(0);
    while data.len() % 4 != 0 {
        data.push(0);
    }
    data.extend_from_slice(&crc.to_le_bytes());
    part(".gnu_debuglink", 1, 0, data)
}

#[test]
fn debug_files_are_looked_for_by_build_id_and_link() {
    let debug = b"debug file".to_vec();
    let crc = crc32fast::hash(&debug);
    let file = module(
        &[],
        vec![build_id_note(&[0xab, 0xcd, 0x01, 0x02]), debuglink("app.debug", crc)],
    );
    let candidates = debug_file_candidates(&file, "/usr/bin/app", &vec!["/dbg".to_owned()]);
    let paths: Vec<&str> = candidates.iter().map(|c| c.path.as_str()).collect();
    assert_eq!(
        paths,
        vec![
            "/dbg/.build-id/ab/cd0102.debug",
            "/usr/bin/app.debug",
            "/usr/bin/.debug/app.debug",
            "/dbg/usr/bin/app.debug",
        ]
    );
    assert_eq!(candidates[0].crc, None);
    assert_eq!(candidates[1].crc, Some(crc));

    let state = |exists: bool, content: Option<Vec<u8>>| FileState { exists, content };
    let files = vec![
        state(false, None),
        state(true, Some(b"other file".to_vec())),
        state(true, Some(debug.clone())),
        state(true, Some(debug)),
    ];
    assert_eq!(
        find_debug_file(&candidates, &files).as_deref(),
        Some("/usr/bin/.debug/app.debug")
    );
    assert_eq!(
        find_debug_file(&candidates, &vec![state(true, None)]).as_deref(),
        Some("/dbg/.build-id/ab/cd0102.debug")
    );
    assert!(find_debug_file(&candidates, &vec![]).is_none());
    assert_eq!(debug_directories()[0], "/usr/lib/debug");
}

const ADDRESSES: LoadAddresses = LoadAddresses { base_svma: 0x1000, base_avma: 0x5000 };

#[test]
fn unwind_data_is_read_from_sections() {
    let file = module(
        &[],
        vec![
            build_id_note(&[1, 2, 3, 4]),
            part(".eh_frame", 1, 0x2000, vec![7, 8, 9]),
            part(".eh_frame_hdr", 1, 0x3000, vec![1, 2]),
        ],
    );
    let (data, process) =
        unwind_data_from_elf(b"/bin/app", Some(&file), 0x5000, 0x6000, Some(&[1, 2, 3, 4]), ADDRESSES)
            .unwrap();
    assert_eq!(data.path, "/bin/app");
    assert_eq!(data.eh_frame, vec![7, 8, 9]);
    assert_eq!(data.eh_frame_svma, 0x2000..0x2003);
    assert_eq!(data.eh_frame_hdr, Some(vec![1, 2]));
    assert_eq!(data.eh_frame_hdr_svma, Some(0x3000..0x3002));
    assert_eq!(data.base_svma, 0x1000);
    assert_eq!(process.avma_range, 0x5000..0x6000);
    assert_eq!(process.base_avma, 0x5000);
    assert_eq!(process.timestamp, None);

    let plain = module(&[], vec![part(".eh_frame", 1, 0x2000, vec![7])]);
    let (data, _) =
        try_unwind_data_from_elf(b"/bin/app", Some(&plain), 0, 0, None, ADDRESSES).unwrap().unwrap();
    assert!(data.eh_frame_hdr.is_none() && data.eh_frame_hdr_svma.is_none());
}

#[test]
fn unwind_data_needs_the_right_file() {
    let read = |content: Option<&[u8]>, id: Option<&[u8]>| {
        unwind_data_from_elf(b"/bin/app", content, 0, 0, id, ADDRESSES).unwrap_err()
    };
    assert_eq!(read(None, None).message(), "Could not open file /bin/app");
    assert!(matches!(read(Some(b"no object file"), None), UnwindError::Object(_)));
    let empty = module(&[], vec![]);
    assert_eq!(read(Some(&empty), None).message(), "Failed to find eh_frame data");
    assert_eq!(
        read(Some(&empty), Some(&[1])).message(),
        "File \"/bin/app\" does not contain a build ID, but we expected it to have one"
    );
    let other = module(&[], vec![build_id_note(&[0xAB, 0xCD, 0xEF, 0x01])]);
    assert_eq!(
        read(Some(&other), Some(&[1, 2])).message(),
        "File \"/bin/app\" has non-matching build ID abcdef01 (expected 0102)"
    );
}

// -------------------------------------------------------------------------------------------
// Debug info
// -------------------------------------------------------------------------------------------

#[test]
fn test_is_libc_filename() {
    for (name, expected) in [
        ("libc.so.6", true),
        ("libc.so", true),
        ("libc-2.31.so", true),
        ("libm.so.6", false),
        ("my_binary", false),
    ] {
        assert_eq!(is_libc_filename(name), expected);
    }
}

#[test]
fn only_libc_is_warned_about() {
    assert!(warn_missing_libc_debug_info("/lib/libc.so.6").is_some());
    assert!(warn_missing_libc_debug_info("/lib/libm.so.6").is_none());
}

/// The DWARF sections of a unit `/src/a.c` at 0x1000, all of whose code is on one line.
fn dwarf(line: u8) -> Vec<Part> {
    let abbrev = vec![
        1, 0x11, 0, 0x03, 0x08, 0x1b, 0x08, 0x10, 0x17, 0x11, 0x01, 0x12, 0x07, 0, 0, 0,
    ];
    let mut unit = vec![4, 0, 0, 0, 0, 0, 8, 1];
    unit.extend_from_slice(b"a.c\0/src\0");
    unit.extend_from_slice(&0u32.to_le_bytes());
    unit.extend_from_slice(&0x1000u64.to_le_bytes());
    unit.extend_from_slice(&0x100u64.to_le_bytes());
    let mut info = (unit.len() as u32).to_le_bytes().to_vec();
    info.extend(unit);

    let mut header = vec![1, 1, 1, 0xfb, 14, 13, 0, 1, 1, 1, 1, 0, 0, 0, 1, 0, 0, 1, 0];
    header.extend_from_slice(b"a.c\0\0\0\0\0");
    let mut program = vec![0, 9, 2];
    program.extend_from_slice(&0x1000u64.to_le_bytes());
    program.extend_from_slice(&[3, line - 1, 1, 2, 0x80, 2, 0, 1, 1]);
    let mut lines = vec![4, 0];
    lines.extend_from_slice(&(header.len() as u32).to_le_bytes());
    lines.extend(header);
    lines.extend(program);
    let mut line_section = (lines.len() as u32).to_le_bytes().to_vec();
    line_section.extend(lines);
    vec![
        part(".debug_abbrev", 1, 0, abbrev),
        part(".debug_info", 1, 0, info),
        part(".debug_line", 1, 0, line_section),
    ]
}

#[test]
fn lines_are_found_in_dwarf() {
    let file = module(&[("main", 0x1000, 16), ("away", 0x9000, 16)], dwarf(7));
    let symbols = ModuleSymbols::from_elf(&file, None).unwrap();
    let info = ModuleDebugInfo::from_symbols("/bin/app", &symbols, 0x10, &file, None).unwrap();
    assert_eq!(info.object_path, "/bin/app");
    assert_eq!(info.load_bias, 0x10);
    // What has no lines does not count.
    assert_eq!(info.addr_bounds, (0x1000, 0x1010));
    assert_eq!(info.debug_infos[0].name, "main");
    assert_eq!(info.debug_infos[0].file, "/src/a.c");
    assert_eq!(info.debug_infos[0].line, Some(7));
    assert_eq!(info.debug_infos.len(), 1);
}

#[test]
fn lines_are_found_in_debug_files() {
    let stripped = module(&[("main", 0x1000, 16)], vec![]);
    let debug = module(&[], dwarf(9));
    let symbols = ModuleSymbols::from_elf(&stripped, None).unwrap();
    let info =
        ModuleDebugInfo::try_from_symbols("/bin/app", &symbols, 0, &stripped, Some(&debug))
            .unwrap()
            .unwrap();
    assert_eq!(info.debug_infos[0].line, Some(9));
    let missing = ModuleDebugInfo::from_symbols("/bin/app", &symbols, 0, &stripped, None);
    assert!(matches!(missing, Err(DebugInfoError::NoDwarf(_))), "{missing:?}");
    let broken = ModuleDebugInfo::from_symbols("/bin/app", &symbols, 0, b"no object file", None);
    assert!(matches!(broken, Err(DebugInfoError::Object(_))), "{broken:?}");
}

#[test]
fn outermost_frames_count() {
    let symbols = ModuleSymbols::new(vec![symbol("main", 0x1000, 16), symbol("gone", 0x2000, 16)]);
    let row = |file: &str, line: u32| {
        Some(SourceRow { file: Some(file.to_owned()), line: Some(line) })
    };
    let frames = vec![Some(vec![row("inlined.c", 1), row("outer.c", 2)]), None];
    let info = debug_info_from_frames("/bin/app", &symbols, 0, &frames).unwrap();
    assert_eq!(info.debug_infos.len(), 1);
    assert_eq!(info.debug_infos[0].file, "outer.c");
    assert!(matches!(
        debug_info_from_frames("/bin/app", &symbols, 0, &vec![None, None]),
        Err(DebugInfoError::NoDebugInfo)
    ));
}

// -------------------------------------------------------------------------------------------
// Dumps
// -------------------------------------------------------------------------------------------

fn dump(records: &[Vec<u8>]) -> Vec<u8> {
    let mut bytes = 0x4A69_5444u32.to_le_bytes().to_vec();
    for word in [1u32, 40, 62, 0, 42] {
        bytes.extend_from_slice(&word.to_le_bytes());
    }
    bytes.extend_from_slice(&0u64.to_le_bytes());
    bytes.extend_from_slice(&0u64.to_le_bytes());
    for record in records {
        bytes.extend_from_slice(record);
    }
    bytes
}

fn dump_record(kind: u32, timestamp: u64, body: &[u8]) -> Vec<u8> {
    let mut bytes = kind.to_le_bytes().to_vec();
    bytes.extend_from_slice(&(body.len() as u32 + 16).to_le_bytes());
    bytes.extend_from_slice(&timestamp.to_le_bytes());
    bytes.extend_from_slice(body);
    bytes
}

fn code_load(name: &str, address: u64, code: &[u8]) -> Vec<u8> {
    let mut body = Vec::new();
    body.extend_from_slice(&42u32.to_le_bytes());
    body.extend_from_slice(&42u32.to_le_bytes());
    for word in [address, address, code.len() as u64, 1] {
        body.extend_from_slice(&word.to_le_bytes());
    }
    body.extend_from_slice(name.as_bytes());
    body.push(0);
    body.extend_from_slice(code);
    dump_record(0, 5, &body)
}

fn unwinding_info(eh_frame: &[u8], eh_frame_hdr: &[u8]) -> Vec<u8> {
    let mut data = eh_frame.to_vec();
    data.extend_from_slice(eh_frame_hdr);
    let mut body = Vec::new();
    body.extend_from_slice(&(data.len() as u64).to_le_bytes());
    body.extend_from_slice(&(eh_frame_hdr.len() as u64).to_le_bytes());
    body.extend_from_slice(&0u64.to_le_bytes());
    body.extend_from_slice(&data);
    dump_record(4, 4, &body)
}

#[test]
fn symbols_are_read_from_dumps() {
    let bytes = dump(&[code_load("jitted", 0x7000, &[0x90; 4]), code_load("more", 0x8000, &[0xc3])]);
    assert!(is_readable(&bytes));
    let dump_file = JitDump::new(jit_dump_path(12));
    assert_eq!(dump_file.path(), "/tmp/jit-12.dump");
    let symbols = dump_file.into_perf_map(&bytes).unwrap();
    assert_eq!(symbols.symbols(), [symbol("jitted", 0x7000, 4), symbol("more", 0x8000, 1)]);
}

#[test]
fn unwinding_info_comes_before_its_code() {
    let records = vec![
        JitRecord::CodeUnwindingInfo { eh_frame: vec![1], eh_frame_hdr: vec![2] },
        JitRecord::Other,
        JitRecord::CodeLoad { timestamp: 5, vma: 0x100, name: b"f".to_vec(), code_size: 8 },
        JitRecord::CodeLoad { timestamp: 6, vma: 0x200, name: b"g".to_vec(), code_size: 8 },
    ];
    assert_eq!(symbols_of_records(&records).symbols().len(), 2);
    let data = unwind_data_of_records(records);
    assert_eq!(data.len(), 1);
    assert_eq!(data[0].0.path, "jit_f");
    assert_eq!(data[0].0.eh_frame, vec![1]);
    assert_eq!(data[0].0.eh_frame_hdr, Some(vec![2]));
    assert_eq!(data[0].1.avma_range, 0x100..0x108);
    assert_eq!(data[0].1.timestamp, Some(5));
}

#[test]
fn unwind_data_is_read_from_dumps() {
    let bytes = dump(&[unwinding_info(&[1, 2, 3], &[4]), code_load("f", 0x100, &[0x90; 8])]);
    let data = JitDump::new("/d".to_owned()).into_unwind_data(&bytes).unwrap();
    assert_eq!(data.len(), 1);
    assert_eq!(data[0].0.path, "jit_f");
    assert_eq!(data[0].1.avma_range, 0x100..0x108);
    let wrapped = dump(&[code_load("f", u64::MAX, &[0x90; 8])]);
    assert!(JitDump::new("/d".to_owned()).try_into_unwind_data(&wrapped).is_none());
}

#[test]
fn broken_dumps_are_told_apart() {
    let mut small = dump(&[]);
    small.extend_from_slice(&[0, 0, 0, 0, 8, 0, 0, 0, 0, 0, 0, 0, 0, 0, 0, 0]);
    assert!(!is_readable(&small));
    let mut body = 0x100u64.to_le_bytes().to_vec();
    body.extend_from_slice(&u64::MAX.to_le_bytes());
    let greedy = dump(&[dump_record(2, 1, &body)]);
    assert!(is_readable(&greedy));
    // The reader itself is asked about a record that announces a little more than it has.
    let mut body = 0x100u64.to_le_bytes().to_vec();
    body.extend_from_slice(&40u64.to_le_bytes());
    let short = dump(&[dump_record(2, 1, &body)]);
    let mut reader = linux_perf_data::jitdump::JitDumpReader::new(&short[..]).unwrap();
    let message = reader.next_record().unwrap().unwrap().parse().unwrap_err().to_string();
    assert_eq!(message, END_OF_DATA);
    for bytes in [&greedy, &short] {
        assert_eq!(
            JitDump::new("/d".to_owned()).into_perf_map(bytes).unwrap_err(),
            JitError::Read(message.clone())
        );
    }
    // What is wrong with a record before it comes first.
    let mut twice = dump(&[dump_record(0, 1, &[])]);
    twice.extend_from_slice(&dump_record(2, 1, &body));
    assert!(JitDump::new("/d".to_owned()).into_perf_map(&twice).is_err());
    assert!(matches!(
        JitDump::new("/d".to_owned()).into_perf_map(b"no dump"),
        Err(JitError::Read(_))
    ));
}

#[test]
fn dumps_are_harvested_by_process() {
    let bytes = dump(&[unwinding_info(&[1], &[2]), code_load("f", 0x100, &[0x90; 8])]);
    let harvest = save_symbols_and_harvest_unwind_data_for_pids(
        "/profile",
        &vec![(1, Some(bytes)), (2, None), (3, Some(b"no dump".to_vec()))],
    )
    .unwrap();
    assert_eq!(harvest.perf_maps.len(), 1);
    assert_eq!(harvest.perf_maps[0].path, "/profile/perf-1.map");
    assert_eq!(harvest.perf_maps[0].text, "100 8 f\n");
    assert_eq!(harvest.unwind_data_by_pid.len(), 1);
    assert_eq!(harvest.unwind_data_by_pid[&1].len(), 1);
}

// -------------------------------------------------------------------------------------------
// What is kept of modules
// -------------------------------------------------------------------------------------------

fn process_data(start: u64) -> ProcessUnwindData {
    ProcessUnwindData { timestamp: None, avma_range: start..start + 16, base_avma: start }
}

fn loaded(biases: &[(i32, u64)]) -> LoadedModule {
    let mut processes = HashMap::new();
    for (pid, bias) in biases {
        processes.insert(
            *pid,
            ProcessLoadedModule {
                symbols_load_bias: Some(*bias),
                process_unwind_data: Some(process_data(*bias)),
            },
        );
    }
    LoadedModule {
        module_symbols: Some(ModuleSymbols::new(vec![symbol("main", 0x1000, 16)])),
        unwind_data: Some(UnwindData {
            path: "/bin/app".to_owned(),
            base_svma: 0,
            eh_frame_hdr: None,
            eh_frame_hdr_svma: None,
            eh_frame: vec![1],
            eh_frame_svma: 0..1,
        }),
        process_loaded_modules: processes,
    }
}

#[test]
fn debug_info_is_kept_where_it_is_found() {
    let file = module(&[("main", 0x1000, 16)], dwarf(7));
    let modules = vec![
        ("/bin/app".to_owned(), loaded(&[(1, 0x10)])),
        ("/bin/gone".to_owned(), loaded(&[(1, 0x10)])),
    ];
    let files = vec![
        ModuleFiles { content: Some(file), debug_file: DebugFile::NotFound },
        ModuleFiles { content: None, debug_file: DebugFile::NotFound },
    ];
    let infos = debug_info_by_path(&modules, &files).unwrap();
    assert_eq!(infos.len(), 2);
    assert_eq!(infos[0].as_ref().unwrap().debug_infos[0].line, Some(7));
    assert!(infos[1].is_none());
    assert!(debug_info_of_module("/bin/gone", &modules[1].1, &files[1]).unwrap().is_none());
}

#[test]
fn modules_are_ignored_by_path() {
    let modules = vec![
        ("/bin/python".to_owned(), loaded(&[(1, 0x10), (2, 0x20)])),
        ("/bin/app".to_owned(), loaded(&[(1, 0x10)])),
    ];
    let ignored = collect_ignored_modules(&modules, &vec!["/bin/python".to_owned()]);
    assert_eq!(ignored.len(), 2);
    assert_eq!(ignored[&1], vec![("/bin/python".to_owned(), 0x1010, 0x1020)]);
    assert_eq!(ignored[&2], vec![("/bin/python".to_owned(), 0x1020, 0x1030)]);
}

#[test]
fn artifacts_refer_to_modules_by_key() {
    let modules = vec![
        ("/bin/app".to_owned(), loaded(&[(1, 0x10), (2, 0x20)])),
        ("/opt/app".to_owned(), loaded(&[(1, 0x30)])),
    ];
    let saved = save_artifacts("/profile", &modules, vec![None, None], &vec![], &vec![]);
    assert_eq!(saved.symbol_files.len(), 2);
    let keys: HashMap<String, String> = saved.key_to_path.iter().cloned().collect();
    assert_eq!(keys.len(), 2);
    let symbols = &saved.symbol_pid_mappings_by_pid;
    assert_eq!(symbols[&1].len(), 2);
    assert_eq!(symbols[&2].len(), 1);
    assert_eq!(symbols[&2][0].load_bias, 0x20);
    assert_eq!(keys[&symbols[&2][0].perf_map_key], "/bin/app");
    let unwind = &saved.mapped_process_unwind_data_by_pid;
    assert_eq!(unwind[&1].len(), 2);
    assert_eq!(keys[&unwind[&2][0].unwind_data_key], "/bin/app");
    assert_eq!(unwind[&2][0].inner.base_avma, 0x20);
    assert!(saved.debug_info.is_empty());
    assert!(saved.mapped_process_debug_info_by_pid.is_empty());
    assert!(saved.ignored_modules_by_pid.is_empty());
}

#[test]
fn processes_refer_to_debug_info_that_is_kept() {
    let modules = vec![
        ("/bin/app".to_owned(), loaded(&[(1, 0x10), (2, 0x20)])),
        ("/opt/app".to_owned(), loaded(&[(1, 0x30)])),
    ];
    let info = ModuleDebugInfo {
        object_path: "/opt/app".to_owned(),
        load_bias: 0,
        addr_bounds: (0, 0x100),
        debug_infos: vec![],
    };
    let saved = save_artifacts("/profile", &modules, vec![None, Some(info)], &vec![], &vec![]);
    assert_eq!(saved.debug_info.len(), 1);
    let references = &saved.mapped_process_debug_info_by_pid;
    assert_eq!(references.len(), 1);
    assert_eq!(references[&1].len(), 1);
    assert_eq!(references[&1][0].debug_info_key, saved.debug_info[0].0);
    assert_eq!(references[&1][0].load_bias, 0x30);
}

#[test]
fn debug_files_by_build_id_win_in_every_directory() {
    let debug = b"debug file".to_vec();
    let crc = crc32fast::hash(&debug);
    let file = module(
        &[],
        vec![build_id_note(&[0xab, 0xcd, 0x01, 0x02]), debuglink("app.debug", crc)],
    );
    let candidates = debug_file_candidates(&file, "/usr/bin/app", &debug_directories());
    let paths: Vec<&str> = candidates.iter().map(|c| c.path.as_str()).collect();
    assert_eq!(
        paths[..3],
        [
            "/usr/lib/debug/.build-id/ab/cd0102.debug",
            "/run/current-system/sw/lib/debug/.build-id/ab/cd0102.debug",
            "/usr/bin/app.debug",
        ]
    );
    let files: Vec<FileState> = candidates
        .iter()
        .enumerate()
        .map(|(i, _)| FileState {
            exists: i == 1 || i == 2,
            content: if i == 2 { Some(debug.clone()) } else { None },
        })
        .collect();
    assert_eq!(find_debug_file(&candidates, &files).as_deref(), Some(paths[1]));
}

#[test]
fn compiled_code_shares_keys_by_path() {
    let jit = |name: &str, start: u64| {
        (
            UnwindData {
                path: name.to_owned(),
                base_svma: 0,
                eh_frame_hdr: None,
                eh_frame_hdr_svma: None,
                eh_frame: vec![],
                eh_frame_svma: 0..0,
            },
            process_data(start),
        )
    };
    let modules = vec![("/bin/app".to_owned(), loaded(&[(1, 0x10)]))];
    let data = vec![
        (1, vec![jit("jit_f", 0x100), jit("jit_g", 0x200)]),
        (2, vec![jit("jit_f", 0x300)]),
    ];
    let saved = save_artifacts("/profile", &modules, vec![None], &data, &vec![]);
    let unwind = &saved.mapped_process_unwind_data_by_pid;
    let keys: Vec<&str> = unwind[&1].iter().map(|m| m.unwind_data_key.as_str()).collect();
    assert_eq!(keys, vec!["0__app", "1__jit_f", "2__jit_g"]);
    assert_eq!(unwind[&2][0].unwind_data_key, "1__jit_f");
    assert_eq!(unwind[&2][0].inner.base_avma, 0x300);
    assert_eq!(saved.unwind_files.len(), 4);
}
