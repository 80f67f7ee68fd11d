//! The dumps that just-in-time compilers leave of the code they made.
use std::collections::HashMap;
use std::ops::Range;

use linux_perf_data::jitdump::{JitDumpReader, JitDumpRecord};
use vstd::prelude::*;

use super::module_symbols::{FileAppend, ModuleSymbols, Symbol, SymbolView};
use crate::bytes::from_utf8_lossy;
use crate::numeral::i64_to_decimal;
use crate::path::join_path;
use crate::runner_shared::unwind_data::{ProcessUnwindData, UnwindData, UnwindDataView};

verus! {

// ---------------------------------------------------------------------------------------------
// The layout of a dump
// ---------------------------------------------------------------------------------------------

/// The size of the part of the file header that every dump has.
pub const HEADER_SIZE: usize = 40;

/// The size of the header of a record.
pub const RECORD_HEADER_SIZE: usize = 16;

/// How much of a dump is read at first, and must hold more than its header.
pub const CHUNK_SIZE: usize = 4096;

/// The type of the records that map code to source lines.
pub const CODE_DEBUG_INFO: u32 = 2;

/// The number in the four bytes from `at`.
pub open spec fn u32_at(bytes: Seq<u8>, big_endian: bool, at: int) -> nat {
    let (a, b, c, d) = (
        bytes[at] as nat,
        bytes[at + 1] as nat,
        bytes[at + 2] as nat,
        bytes[at + 3] as nat,
    );
    if big_endian {
        ((a * 256 + b) * 256 + c) * 256 + d
    } else {
        ((d * 256 + c) * 256 + b) * 256 + a
    }
}

/// The number in the eight bytes from `at`.
pub open spec fn u64_at(bytes: Seq<u8>, big_endian: bool, at: int) -> nat {
    let (first, second) = (u32_at(bytes, big_endian, at), u32_at(bytes, big_endian, at + 4));
    if big_endian {
        first * 0x1_0000_0000 + second
    } else {
        second * 0x1_0000_0000 + first
    }
}

/// The byte order of a dump, told by its first four bytes.
pub open spec fn byte_order(bytes: Seq<u8>) -> Option<bool> {
    if bytes.len() < 4 {
        None
    } else if bytes.take(4) == seq![0x4au8, 0x69, 0x54, 0x44] {
        Some(true)
    } else if bytes.take(4) == seq![0x44u8, 0x54, 0x69, 0x4a] {
        Some(false)
    } else {
        None
    }
}

/// The size of the header of a dump, if it has one.
pub open spec fn header_size(bytes: Seq<u8>) -> Option<nat> {
    match byte_order(bytes) {
        Some(big_endian) => if bytes.len() >= HEADER_SIZE && HEADER_SIZE <= u32_at(
            bytes,
            big_endian,
            8,
        ) <= CHUNK_SIZE && u32_at(bytes, big_endian, 8) <= bytes.len() {
            Some(u32_at(bytes, big_endian, 8))
        } else {
            None
        },
        None => None,
    }
}

/// Whether no record from `at` on is smaller than its header.
pub open spec fn records_sound(bytes: Seq<u8>, big_endian: bool, at: int) -> bool
    decreases bytes.len() - at,
{
    if at + RECORD_HEADER_SIZE > bytes.len() {
        true
    } else {
        let size = u32_at(bytes, big_endian, at + 4);
        &&& size >= RECORD_HEADER_SIZE
        &&& at + size <= bytes.len() ==> records_sound(bytes, big_endian, at + size)
    }
}

/// Whether the record at `at`, of this size, announces more source lines than it has bytes.
pub open spec fn announces_too_much(bytes: Seq<u8>, big_endian: bool, at: int, size: nat) -> bool {
    u32_at(bytes, big_endian, at) == CODE_DEBUG_INFO && size >= 32 && u64_at(
        bytes,
        big_endian,
        at + 24,
    ) > size
}

/// Where the first complete record from `at` on is that announces more source lines than it has
/// bytes.
pub open spec fn overstated_from(bytes: Seq<u8>, big_endian: bool, at: int) -> Option<int>
    decreases bytes.len() - at,
{
    if at + RECORD_HEADER_SIZE > bytes.len() {
        None
    } else {
        let size = u32_at(bytes, big_endian, at + 4);
        if size < RECORD_HEADER_SIZE || at + size > bytes.len() {
            None
        } else if announces_too_much(bytes, big_endian, at, size) {
            Some(at)
        } else {
            overstated_from(bytes, big_endian, at + size)
        }
    }
}

/// Whether the records of a dump can be told apart.
pub open spec fn readable(bytes: Seq<u8>) -> bool {
    header_size(bytes) matches Some(size) ==> size < CHUNK_SIZE && records_sound(
        bytes,
        byte_order(bytes)->0,
        size as int,
    )
}

/// Where the first record of a dump is that announces more source lines than it has bytes.
pub open spec fn first_overstated(bytes: Seq<u8>) -> Option<int> {
    match header_size(bytes) {
        Some(size) => overstated_from(bytes, byte_order(bytes)->0, size as int),
        None => None,
    }
}

/// The records before the first that announces too much can be told apart, and announce no more than
/// they have.
proof fn lemma_records_before(bytes: Seq<u8>, big_endian: bool, at: int, end: int)
    requires
        0 <= at,
        overstated_from(bytes, big_endian, at) == Some(end),
    ensures
        at <= end <= bytes.len(),
        records_sound(bytes.take(end), big_endian, at),
        overstated_from(bytes.take(end), big_endian, at) is None,
    decreases bytes.len() - at,
{
    let size = u32_at(bytes, big_endian, at + 4);
    if !announces_too_much(bytes, big_endian, at, size) {
        lemma_records_before(bytes, big_endian, at + size, end);
        let before = bytes.take(end);
        assert forall|i: int| 0 <= i < end implies #[trigger] before[i] == bytes[i] by {}
        assert(u32_at(before, big_endian, at + 4) == size);
        assert(u32_at(before, big_endian, at) == u32_at(bytes, big_endian, at));
        if size >= 32 {
            assert(u64_at(before, big_endian, at + 24) == u64_at(bytes, big_endian, at + 24));
        }
    }
}

/// A dump up to its first record that announces too much is readable, and no record of it does.
proof fn lemma_dump_before(bytes: Seq<u8>, end: int)
    requires
        readable(bytes),
        first_overstated(bytes) == Some(end),
    ensures
        0 <= end <= bytes.len(),
        readable(bytes.take(end)),
        first_overstated(bytes.take(end)) is None,
{
    let size = header_size(bytes)->0 as int;
    let big_endian = byte_order(bytes)->0;
    let before = bytes.take(end);
    lemma_records_before(bytes, big_endian, size, end);
    assert(before.take(4) =~= bytes.take(4));
    assert(u32_at(before, big_endian, 8) == u32_at(bytes, big_endian, 8));
}

fn read_u32(bytes: &[u8], big_endian: bool, at: usize) -> (r: u32)
    requires
        at + 4 <= bytes@.len(),
    ensures
        r == u32_at(bytes@, big_endian, at as int),
{
    let a: u32 = bytes[at] as u32;
    let b: u32 = bytes[at + 1] as u32;
    let c: u32 = bytes[at + 2] as u32;
    let d: u32 = bytes[at + 3] as u32;
    if big_endian {
        ((a * 256 + b) * 256 + c) * 256 + d
    } else {
        ((d * 256 + c) * 256 + b) * 256 + a
    }
}

fn read_u64(bytes: &[u8], big_endian: bool, at: usize) -> (r: u64)
    requires
        at + 8 <= bytes@.len(),
    ensures
        r == u64_at(bytes@, big_endian, at as int),
{
    let total: usize = bytes.len();
    assert(at + 8 <= total);
    let first: u64 = read_u32(bytes, big_endian, at) as u64;
    let second: u64 = read_u32(bytes, big_endian, at + 4) as u64;
    if big_endian {
        first * 0x1_0000_0000 + second
    } else {
        second * 0x1_0000_0000 + first
    }
}

fn read_byte_order(bytes: &[u8]) -> (r: Option<bool>)
    ensures
        r == byte_order(bytes@),
{
    if bytes.len() < 4 {
        return None;
    }
    let ghost magic = bytes@.take(4);
    if bytes[0] == 0x4a && bytes[1] == 0x69 && bytes[2] == 0x54 && bytes[3] == 0x44 {
        assert(magic =~= seq![0x4au8, 0x69, 0x54, 0x44]);
        return Some(true);
    }
    assert(magic[0] == bytes@[0] && magic[1] == bytes@[1] && magic[2] == bytes@[2] && magic[3]
        == bytes@[3]);
    assert(magic != seq![0x4au8, 0x69, 0x54, 0x44]) by {
        let m = seq![0x4au8, 0x69, 0x54, 0x44];
        assert(m[0] == 0x4a && m[1] == 0x69 && m[2] == 0x54 && m[3] == 0x44);
    }
    if bytes[0] == 0x44 && bytes[1] == 0x54 && bytes[2] == 0x69 && bytes[3] == 0x4a {
        assert(magic =~= seq![0x44u8, 0x54, 0x69, 0x4a]);
        return Some(false);
    }
    assert(magic != seq![0x44u8, 0x54, 0x69, 0x4a]) by {
        let m = seq![0x44u8, 0x54, 0x69, 0x4a];
        assert(m[0] == 0x44 && m[1] == 0x54 && m[2] == 0x69 && m[3] == 0x4a);
    }
    None
}

/// Whether a dump is readable, and where the first record is that announces more than it has.
fn check_dump(bytes: &[u8]) -> (r: (bool, Option<usize>))
    ensures
        r.0 == readable(bytes@),
        r.0 ==> match r.1 {
            Some(at) => first_overstated(bytes@) == Some(at as int),
            None => first_overstated(bytes@) is None,
        },
{
    let Some(big_endian) = read_byte_order(bytes) else {
        return (true, None);
    };
    if bytes.len() < HEADER_SIZE {
        return (true, None);
    }
    let size: usize = read_u32(bytes, big_endian, 8) as usize;
    if size < HEADER_SIZE || size > CHUNK_SIZE || size > bytes.len() {
        return (true, None);
    }
    if size == CHUNK_SIZE {
        return (false, None);
    }
    let mut at: usize = size;
    let mut first: Option<usize> = None;
    while bytes.len() - at >= RECORD_HEADER_SIZE
        invariant
            at <= bytes@.len(),
            readable(bytes@) == records_sound(bytes@, big_endian, at as int),
            match first {
                Some(found) => first_overstated(bytes@) == Some(found as int),
                None => first_overstated(bytes@) == overstated_from(
                    bytes@,
                    big_endian,
                    at as int,
                ),
            },
        decreases bytes.len() - at,
    {
        let size: usize = read_u32(bytes, big_endian, at + 4) as usize;
        if size < RECORD_HEADER_SIZE {
            return (false, None);
        }
        if size > bytes.len() - at {
            return (true, first);
        }
        if first.is_none() && read_u32(bytes, big_endian, at) == CODE_DEBUG_INFO && size >= 32 && read_u64(
            bytes,
            big_endian,
            at + 24,
        ) > size as u64 {
            first = Some(at);
        }
        at = at + size;
    }
    (true, first)
}

/// Whether the records of a dump can be told apart.
pub fn is_readable(bytes: &[u8]) -> (r: bool)
    ensures
        r == readable(bytes@),
{
    check_dump(bytes).0
}

// ---------------------------------------------------------------------------------------------
// The records of a dump
// ---------------------------------------------------------------------------------------------

/// What a record of a dump tells.
#[derive(Debug)]
pub enum JitRecord {
    /// Code was loaded at an address, under a name.
    CodeLoad { timestamp: u64, vma: u64, name: Vec<u8>, code_size: u64 },
    /// How the stack is unwound in the code that is loaded next.
    CodeUnwindingInfo { eh_frame: Vec<u8>, eh_frame_hdr: Vec<u8> },
    Other,
}

pub enum JitRecordView {
    CodeLoad { timestamp: u64, vma: u64, name: Seq<u8>, code_size: u64 },
    CodeUnwindingInfo { eh_frame: Seq<u8>, eh_frame_hdr: Seq<u8> },
    Other,
}

impl DeepView for JitRecord {
    type V = JitRecordView;

    open spec fn deep_view(&self) -> JitRecordView {
        match *self {
            JitRecord::CodeLoad { timestamp, vma, name, code_size } => JitRecordView::CodeLoad {
                timestamp,
                vma,
                name: name@,
                code_size,
            },
            JitRecord::CodeUnwindingInfo {
                eh_frame,
                eh_frame_hdr,
            } => JitRecordView::CodeUnwindingInfo {
                eh_frame: eh_frame@,
                eh_frame_hdr: eh_frame_hdr@,
            },
            JitRecord::Other => JitRecordView::Other,
        }
    }
}

/// The records of a dump, or the message of the error that comes up while they are read.
pub uninterp spec fn jit_records(bytes: Seq<u8>) -> Result<Seq<JitRecordView>, Seq<char>>;

/// The view of what was read.
pub open spec fn records_view(r: Result<Vec<JitRecord>, String>) -> Result<
    Seq<JitRecordView>,
    Seq<char>,
> {
    match r {
        Ok(records) => Ok(records.deep_view()),
        Err(message) => Err(message@),
    }
}

/// `linux_perf_data::jitdump::JitDumpReader::next_record` until the end of the dump, with
/// `JitDumpRawRecord::parse` of each record.
///
/// The reader panics on a header that fills the chunk it reads first and on a record that is
/// smaller than its header, and sets memory aside for as many source lines as a record announces.
#[verifier::external_body]
fn read_records(bytes: &[u8]) -> (r: Result<Vec<JitRecord>, String>)
    requires
        readable(bytes@),
        first_overstated(bytes@) is None,
    ensures
        records_view(r) == jit_records(bytes@),
{
    let mut reader = JitDumpReader::new(bytes).map_err(|e| e.to_string())?;
    let mut records = Vec::new();
    while let Some(raw) = reader.next_record().map_err(|e| e.to_string())? {
        let timestamp = raw.timestamp;
        records.push(match raw.parse().map_err(|e| e.to_string())? {
            JitDumpRecord::CodeLoad(r) => JitRecord::CodeLoad {
                timestamp, vma: r.vma, name: r.function_name.as_slice().into_owned(),
                code_size: r.code_bytes.len() as u64 },
            JitDumpRecord::CodeUnwindingInfo(r) => JitRecord::CodeUnwindingInfo {
                eh_frame: r.eh_frame.as_slice().into_owned(),
                eh_frame_hdr: r.eh_frame_hdr.as_slice().into_owned() },
            _ => JitRecord::Other,
        });
    }
    Ok(records)
}

/// Why a dump was not read.
#[derive(Debug, PartialEq, Eq)]
pub enum JitError {
    /// The reader refused the dump or one of its records.
    Read(String),
}

/// How the error of a reader that comes to the end of its data reads.
pub const END_OF_DATA: &'static str = "unexpected end of file";

/// Reads the records of a dump.
fn records_of(bytes: &[u8]) -> (r: Result<Vec<JitRecord>, JitError>)
    requires
        readable(bytes@),
    ensures
        match records_in(bytes@) {
            Ok(all) => r matches Ok(records) && records.deep_view() == all,
            Err(message) => r matches Err(JitError::Read(m)) && m@ == message,
        },
{
    if let Some(at) = check_dump(bytes).1 {
        proof {
            lemma_dump_before(bytes@, at as int);
        }
        let before = vstd::slice::slice_subrange(bytes, 0, at);
        assert(before@ =~= bytes@.take(at as int));
        return match read_records(before) {
            Ok(_) => Err(JitError::Read(END_OF_DATA.to_owned())),
            Err(message) => Err(JitError::Read(message)),
        };
    }
    match read_records(bytes) {
        Ok(records) => Ok(records),
        Err(message) => Err(JitError::Read(message)),
    }
}

/// The records of a dump, or the message of the first error. A record that announces more source
/// lines than it has bytes comes to the end of its data.
pub open spec fn records_in(bytes: Seq<u8>) -> Result<Seq<JitRecordView>, Seq<char>> {
    match first_overstated(bytes) {
        None => jit_records(bytes),
        Some(at) => match jit_records(bytes.take(at)) {
            Ok(_) => Err(END_OF_DATA@),
            Err(message) => Err(message),
        },
    }
}

/// A symbol for each piece of code that was loaded.
pub open spec fn loaded_symbols(records: Seq<JitRecordView>) -> Seq<SymbolView>
    decreases records.len(),
{
    if records.len() == 0 {
        seq![]
    } else {
        let rest = loaded_symbols(records.drop_last());
        match records.last() {
            JitRecordView::CodeLoad { vma, name, code_size, .. } => rest.push(
                SymbolView { addr: vma, size: code_size, name: crate::bytes::lossy_text(name) },
            ),
            _ => rest,
        }
    }
}

/// The unwinding info that is pending after the records: that of the last record with one, unless
/// code was loaded since.
pub open spec fn pending_info(records: Seq<JitRecordView>) -> Option<(Seq<u8>, Seq<u8>)>
    decreases records.len(),
{
    if records.len() == 0 {
        None
    } else {
        match records.last() {
            JitRecordView::CodeLoad { .. } => None,
            JitRecordView::CodeUnwindingInfo { eh_frame, eh_frame_hdr } => Some(
                (eh_frame, eh_frame_hdr),
            ),
            JitRecordView::Other => pending_info(records.drop_last()),
        }
    }
}

/// The unwind data of one piece of code.
pub open spec fn code_unwind_data(
    timestamp: u64,
    vma: u64,
    name: Seq<u8>,
    code_size: u64,
    info: (Seq<u8>, Seq<u8>),
) -> (UnwindDataView, ProcessUnwindData) {
    (
        UnwindDataView {
            path: "jit_"@ + crate::bytes::lossy_text(name),
            base_svma: 0,
            eh_frame_hdr: Some(info.1),
            eh_frame_hdr_svma: Some(Range { start: 0, end: 0 }),
            eh_frame: info.0,
            eh_frame_svma: Range { start: 0, end: 0 },
        },
        ProcessUnwindData {
            timestamp: Some(timestamp),
            avma_range: Range { start: vma, end: (vma + code_size) as u64 },
            base_avma: 0,
        },
    )
}

/// The unwind data of the pieces of code that unwinding info was pending for.
pub open spec fn harvested(records: Seq<JitRecordView>) -> Seq<(UnwindDataView, ProcessUnwindData)>
    decreases records.len(),
{
    if records.len() == 0 {
        seq![]
    } else {
        let before = records.drop_last();
        match records.last() {
            JitRecordView::CodeLoad { timestamp, vma, name, code_size } => match pending_info(
                before,
            ) {
                Some(info) => harvested(before).push(
                    code_unwind_data(timestamp, vma, name, code_size, info),
                ),
                None => harvested(before),
            },
            _ => harvested(before),
        }
    }
}

/// Whether no code ends beyond the last address.
pub open spec fn code_fits(records: Seq<JitRecordView>) -> bool {
    forall|i: int|
        0 <= i < records.len() ==> ((#[trigger] records[i]) matches JitRecordView::CodeLoad {
            vma,
            code_size,
            ..
        } ==> vma + code_size <= u64::MAX)
}

/// A symbol for each piece of code that the records load.
pub fn symbols_of_records(records: &Vec<JitRecord>) -> (r: ModuleSymbols)
    ensures
        r.deep_view() == loaded_symbols(records.deep_view()),
{
    let ghost all = records.deep_view();
    let mut out: Vec<Symbol> = Vec::new();
    let mut i: usize = 0;
    assert(all.take(0) =~= seq![]);
    while i < records.len()
        invariant
            all == records.deep_view(),
            i <= records@.len(),
            out.deep_view() == loaded_symbols(all.take(i as int)),
        decreases records.len() - i,
    {
        let ghost before = out;
        assert(all[i as int] == records@[i as int].deep_view());
        assert(all.take(i + 1).drop_last() =~= all.take(i as int));
        if let JitRecord::CodeLoad { vma, name, code_size, .. } = &records[i] {
            let s = Symbol { addr: *vma, size: *code_size, name: from_utf8_lossy(name.as_slice()) };
            out.push(s);
            proof {
                crate::list::lemma_deep_push(before, s, out);
            }
        }
        i = i + 1;
    }
    assert(all.take(all.len() as int) =~= all);
    ModuleSymbols::new(out)
}

/// The unwind data of the pieces of code that the records load with unwinding info.
pub fn unwind_data_of_records(records: Vec<JitRecord>) -> (r: Vec<(UnwindData, ProcessUnwindData)>)
    requires
        code_fits(records.deep_view()),
    ensures
        r.deep_view() == harvested(records.deep_view()),
{
    let ghost all = records.deep_view();
    let mut out: Vec<(UnwindData, ProcessUnwindData)> = Vec::new();
    let mut pending: Option<(Vec<u8>, Vec<u8>)> = None;
    assert(all.take(0) =~= seq![]);
    for record in it: records
        invariant
            code_fits(all),
            all.len() == it.seq().len(),
            forall|i: int| 0 <= i < all.len() ==> all[i] == (#[trigger] it.seq()[i]).deep_view(),
            out.deep_view() == harvested(all.take(it.index())),
            match pending {
                Some(p) => pending_info(all.take(it.index())) == Some((p.0@, p.1@)),
                None => pending_info(all.take(it.index())) is None,
            },
    {
        let ghost n = it.index();
        let ghost before = out;
        let ghost view = record.deep_view();
        assert(all[n] == view);
        assert(all.take(n + 1).drop_last() =~= all.take(n));
        match record {
            JitRecord::CodeUnwindingInfo { eh_frame, eh_frame_hdr } => {
                pending = Some((eh_frame, eh_frame_hdr));
            },
            JitRecord::CodeLoad { timestamp, vma, name, code_size } => {
                if let Some((eh_frame, eh_frame_hdr)) = pending {
                    let mut path = "jit_".to_owned();
                    path.append(from_utf8_lossy(name.as_slice()).as_str());
                    let unwind_data = UnwindData {
                        path,
                        base_svma: 0,
                        eh_frame_hdr: Some(eh_frame_hdr),
                        eh_frame_hdr_svma: Some(Range { start: 0, end: 0 }),
                        eh_frame,
                        eh_frame_svma: Range { start: 0, end: 0 },
                    };
                    let process_unwind_data = ProcessUnwindData {
                        timestamp: Some(timestamp),
                        avma_range: Range { start: vma, end: vma + code_size },
                        base_avma: 0,
                    };
                    assert(eh_frame.deep_view() =~= eh_frame@);
                    assert(eh_frame_hdr.deep_view() =~= eh_frame_hdr@);
                    out.push((unwind_data, process_unwind_data));
                    proof {
                        crate::list::lemma_deep_push(before, out@.last(), out);
                    }
                }
                pending = None;
            },
            JitRecord::Other => {},
        }
    }
    assert(all.take(all.len() as int) =~= all);
    out
}

/// Whether no code of a dump, if it can be read, ends beyond the last address.
pub open spec fn dump_code_fits(bytes: Seq<u8>) -> bool {
    records_in(bytes) matches Ok(records) ==> code_fits(records)
}

/// What `into_unwind_data` returns.
pub open spec fn unwind_data_result(
    bytes: Seq<u8>,
    r: Result<Vec<(UnwindData, ProcessUnwindData)>, JitError>,
) -> bool {
    match records_in(bytes) {
        Ok(records) => r matches Ok(data) && data.deep_view() == harvested(records),
        Err(message) => r matches Err(JitError::Read(m)) && m@ == message,
    }
}

/// The dump at a path.
#[derive(Debug)]
pub struct JitDump {
    path: String,
}

impl JitDump {
    pub closed spec fn path_view(&self) -> Seq<char> {
        self.path@
    }

    pub fn new(path: String) -> (r: Self)
        ensures
            r.path_view() == path@,
    {
        Self { path }
    }

    /// Where the dump is.
    pub fn path(&self) -> (r: &str)
        ensures
            r@ == self.path_view(),
    {
        self.path.as_str()
    }

    /// A symbol for each piece of code that the dump, which holds `content`, says was loaded.
    pub fn into_perf_map(self, content: &[u8]) -> (r: Result<ModuleSymbols, JitError>)
        requires
            readable(content@),
        ensures
            match records_in(content@) {
                Ok(records) => r matches Ok(s) && s.deep_view() == loaded_symbols(records),
                Err(message) => r matches Err(JitError::Read(m)) && m@ == message,
            },
    {
        match records_of(content) {
            Ok(records) => Ok(symbols_of_records(&records)),
            Err(error) => Err(error),
        }
    }

    /// The unwind data of the code that the dump, which holds `content`, says was loaded.
    ///
    /// Unwinding info comes before the code that it is for.
    pub fn into_unwind_data(self, content: &[u8]) -> (r: Result<
        Vec<(UnwindData, ProcessUnwindData)>,
        JitError,
    >)
        requires
            readable(content@),
            dump_code_fits(content@),
        ensures
            unwind_data_result(content@, r),
    {
        match records_of(content) {
            Ok(records) => Ok(unwind_data_of_records(records)),
            Err(error) => Err(error),
        }
    }

    /// The unwind data of the code in the dump, or `None` where some of the code would end beyond
    /// the last address.
    pub fn try_into_unwind_data(self, content: &[u8]) -> (r: Option<
        Result<Vec<(UnwindData, ProcessUnwindData)>, JitError>,
    >)
        requires
            readable(content@),
        ensures
            match r {
                Some(data) => unwind_data_result(content@, data),
                None => !dump_code_fits(content@),
            },
    {
        if let Ok(records) = records_of(content) {
            if !records_fit(&records) {
                return None;
            }
        }
        Some(self.into_unwind_data(content))
    }
}

fn records_fit(records: &Vec<JitRecord>) -> (r: bool)
    ensures
        r == code_fits(records.deep_view()),
{
    let ghost all = records.deep_view();
    let mut i: usize = 0;
    while i < records.len()
        invariant
            all == records.deep_view(),
            i <= records@.len(),
            code_fits(all.take(i as int)),
        decreases records.len() - i,
    {
        assert(all[i as int] == records@[i as int].deep_view());
        if let JitRecord::CodeLoad { vma, code_size, .. } = &records[i] {
            if *code_size > u64::MAX - *vma {
                return false;
            }
        }
        proof {
            crate::list::lemma_take_push(all, i as int);
        }
        i = i + 1;
    }
    assert(all.take(all.len() as int) =~= all);
    true
}

/// Where the process `pid` dumps its code.
pub open spec fn dump_path(pid: i32) -> Seq<char> {
    crate::path::joined_path(
        "/tmp"@,
        "jit-"@ + crate::numeral::signed_decimal(pid as int) + ".dump"@,
    )
}

/// Where the symbols of the code of the process `pid` are kept.
pub open spec fn perf_map_path(profile_folder: Seq<char>, pid: i32) -> Seq<char> {
    crate::path::joined_path(
        profile_folder,
        "perf-"@ + crate::numeral::signed_decimal(pid as int) + ".map"@,
    )
}

/// Where the process `pid` dumps its code.
pub fn jit_dump_path(pid: i32) -> (r: String)
    ensures
        r@ == dump_path(pid),
{
    let mut name = "jit-".to_owned();
    name.append(i64_to_decimal(pid as i64).as_str());
    name.append(".dump");
    join_path("/tmp", name.as_str())
}

fn perf_map_file(profile_folder: &str, pid: i32) -> (r: String)
    ensures
        r@ == perf_map_path(profile_folder@, pid),
{
    let mut name = "perf-".to_owned();
    name.append(i64_to_decimal(pid as i64).as_str());
    name.append(".map");
    join_path(profile_folder, name.as_str())
}

/// A process and what its dump holds, if there is one that can be read.
pub type PidDump = (i32, Option<Vec<u8>>);

/// What the dumps of some processes give.
#[derive(Debug)]
pub struct JitHarvest {
    /// The symbols to be added to the files of the processes.
    pub perf_maps: Vec<FileAppend>,
    pub unwind_data_by_pid: HashMap<i32, Vec<(UnwindData, ProcessUnwindData)>>,
}

/// The symbols that the dumps give.
pub open spec fn harvested_maps(folder: Seq<char>, dumps: Seq<PidDump>) -> Seq<(Seq<char>, Seq<char>)>
    decreases dumps.len(),
{
    if dumps.len() == 0 {
        seq![]
    } else {
        let rest = harvested_maps(folder, dumps.drop_last());
        match dumps.last().1 {
            Some(content) => match records_in(content@) {
                Ok(records) => rest.push(
                    (
                        perf_map_path(folder, dumps.last().0),
                        super::module_symbols::symbol_lines(loaded_symbols(records)),
                    ),
                ),
                Err(_) => rest,
            },
            None => rest,
        }
    }
}

/// The unwind data that the dumps give, by process.
pub open spec fn harvested_unwind_data(dumps: Seq<PidDump>) -> Map<
    i32,
    Seq<(UnwindDataView, ProcessUnwindData)>,
>
    decreases dumps.len(),
{
    if dumps.len() == 0 {
        Map::empty()
    } else {
        let rest = harvested_unwind_data(dumps.drop_last());
        match dumps.last().1 {
            Some(content) => match records_in(content@) {
                Ok(records) => rest.insert(dumps.last().0, harvested(records)),
                Err(_) => rest,
            },
            None => rest,
        }
    }
}

/// Whether the dumps can be read.
pub open spec fn dumps_readable(dumps: Seq<PidDump>) -> bool {
    forall|i: int|
        0 <= i < dumps.len() ==> ((#[trigger] dumps[i]).1 matches Some(content) ==> readable(
            content@,
        ))
}

/// Whether none of the code in the dumps ends beyond the last address.
pub open spec fn dumps_code_fits(dumps: Seq<PidDump>) -> bool {
    forall|i: int|
        0 <= i < dumps.len() ==> ((#[trigger] dumps[i]).1 matches Some(content) ==> dump_code_fits(
            content@,
        ))
}

/// The symbols and the unwind data of the code that some processes have dumped.
///
/// A dump belongs to one process, so its symbols go to the file of that process. A dump that
/// cannot be read gives nothing. The result is `None` where some of the code would end beyond the
/// last address.
pub fn save_symbols_and_harvest_unwind_data_for_pids(
    profile_folder: &str,
    dumps: &Vec<PidDump>,
) -> (r: Option<JitHarvest>)
    requires
        dumps_readable(dumps@),
    ensures
        match r {
            Some(harvest) => {
                &&& harvest.perf_maps.deep_view() == harvested_maps(profile_folder@, dumps@)
                &&& harvest.unwind_data_by_pid@.dom() == harvested_unwind_data(dumps@).dom()
                &&& forall|pid: i32| #[trigger]
                    harvest.unwind_data_by_pid@.contains_key(pid)
                        ==> harvest.unwind_data_by_pid@[pid].deep_view() == harvested_unwind_data(
                        dumps@,
                    )[pid]
            },
            None => !dumps_code_fits(dumps@),
        },
{
    broadcast use vstd::std_specs::hash::group_hash_axioms;

    let mut perf_maps: Vec<FileAppend> = Vec::new();
    let mut by_pid: HashMap<i32, Vec<(UnwindData, ProcessUnwindData)>> = HashMap::new();
    let mut i: usize = 0;
    assert(dumps@.take(0) =~= seq![]);
    while i < dumps.len()
        invariant
            i <= dumps@.len(),
            dumps_readable(dumps@),
            perf_maps.deep_view() == harvested_maps(profile_folder@, dumps@.take(i as int)),
            by_pid@.dom() == harvested_unwind_data(dumps@.take(i as int)).dom(),
            forall|pid: i32| #[trigger]
                by_pid@.contains_key(pid) ==> by_pid@[pid].deep_view() == harvested_unwind_data(
                    dumps@.take(i as int),
                )[pid],
        decreases dumps.len() - i,
    {
        broadcast use vstd::std_specs::hash::group_hash_axioms;

        let ghost before = perf_maps;
        assert(dumps@.take(i + 1).drop_last() =~= dumps@.take(i as int));
        assert(dumps@.take(i + 1).last() == dumps@[i as int]);
        let pid: i32 = dumps[i].0;
        if let Some(content) = &dumps[i].1 {
            assert(readable(dumps@[i as int].1->0@));
            let symbols = JitDump::new(jit_dump_path(pid)).into_perf_map(content.as_slice());
            if let Ok(symbols) = symbols {
                let file = perf_map_file(profile_folder, pid);
                perf_maps.push(symbols.append_to_file(file.as_str()));
                proof {
                    crate::list::lemma_deep_push(before, perf_maps@.last(), perf_maps);
                }
                let data = JitDump::new(jit_dump_path(pid)).try_into_unwind_data(content.as_slice());
                match data {
                    Some(Ok(data)) => {
                        by_pid.insert(pid, data);
                    },
                    Some(Err(_)) => {},
                    None => {
                        assert(!dump_code_fits(dumps@[i as int].1->0@));
                        return None;
                    },
                }
            }
        }
        i = i + 1;
    }
    assert(dumps@.take(dumps@.len() as int) =~= dumps@);
    Some(JitHarvest { perf_maps, unwind_data_by_pid: by_pid })
}

// ---------------------------------------------------------------------------------------------
// Laws
// ---------------------------------------------------------------------------------------------

/// Code that is loaded adds one symbol, at its address and of its size, after those of the records
/// before it. Other records add none.
pub proof fn law_loaded_code_has_a_symbol(
    before: &Vec<JitRecord>,
    after: &Vec<JitRecord>,
    record: JitRecordView,
    r_before: ModuleSymbols,
    r_after: ModuleSymbols,
)
    requires
        call_ensures(symbols_of_records, (before,), r_before),
        call_ensures(symbols_of_records, (after,), r_after),
        after.deep_view() == before.deep_view().push(record),
    ensures
        before@.len() == 0 ==> r_before.deep_view().len() == 0,
        match record {
            JitRecordView::CodeLoad { timestamp, vma, name, code_size } => r_after.deep_view()
                == r_before.deep_view().push(
                SymbolView { addr: vma, size: code_size, name: crate::bytes::lossy_text(name) },
            ),
            _ => r_after.deep_view() == r_before.deep_view(),
        },
{
    assert(after.deep_view().drop_last() =~= before.deep_view());
}

proof fn lemma_pending_keeps(records: Seq<JitRecordView>, others: Seq<JitRecordView>)
    requires
        forall|i: int| 0 <= i < others.len() ==> #[trigger] others[i] is Other,
    ensures
        pending_info(records + others) == pending_info(records),
        harvested(records + others) == harvested(records),
    decreases others.len(),
{
    if others.len() == 0 {
        assert(records + others =~= records);
    } else {
        lemma_pending_keeps(records, others.drop_last());
        let all = records + others;
        assert(all.drop_last() =~= records + others.drop_last());
        assert(all.last() == others.last());
    }
}

/// Unwinding info is for the code that is loaded next: that adds its unwind data, at its address
/// and with its time, whatever other records come between.
pub proof fn law_unwinding_info_is_for_the_next_code(
    before: Vec<JitRecord>,
    after: Vec<JitRecord>,
    eh_frame: Seq<u8>,
    eh_frame_hdr: Seq<u8>,
    others: Seq<JitRecordView>,
    timestamp: u64,
    vma: u64,
    name: Seq<u8>,
    code_size: u64,
    r_before: Vec<(UnwindData, ProcessUnwindData)>,
    r_after: Vec<(UnwindData, ProcessUnwindData)>,
)
    requires
        call_ensures(unwind_data_of_records, (before,), r_before),
        call_ensures(unwind_data_of_records, (after,), r_after),
        forall|i: int| 0 <= i < others.len() ==> #[trigger] others[i] is Other,
        after.deep_view() == (before.deep_view().push(
            JitRecordView::CodeUnwindingInfo { eh_frame, eh_frame_hdr },
        ) + others).push(JitRecordView::CodeLoad { timestamp, vma, name, code_size }),
        vma + code_size <= u64::MAX,
    ensures
        before@.len() == 0 ==> r_before@.len() == 0,
        r_after@.len() == r_before@.len() + 1,
        r_after.deep_view().drop_last() == r_before.deep_view(),
        r_after.deep_view().last().0.path == "jit_"@ + crate::bytes::lossy_text(name),
        r_after.deep_view().last().0.eh_frame == eh_frame,
        r_after.deep_view().last().0.eh_frame_hdr == Some(eh_frame_hdr),
        r_after.deep_view().last().0.base_svma == 0,
        r_after.deep_view().last().0.eh_frame_svma == (Range::<u64> { start: 0, end: 0 }),
        r_after.deep_view().last().0.eh_frame_hdr_svma == Some(Range::<u64> { start: 0, end: 0 }),
        r_after.deep_view().last().1.timestamp == Some(timestamp),
        r_after.deep_view().last().1.avma_range.start == vma,
        r_after.deep_view().last().1.avma_range.end == vma + code_size,
        r_after.deep_view().last().1.base_avma == 0,
{
    let first = before.deep_view().push(
        JitRecordView::CodeUnwindingInfo { eh_frame, eh_frame_hdr },
    );
    lemma_pending_keeps(first, others);
    assert(first.drop_last() =~= before.deep_view());
    assert(after.deep_view().drop_last() =~= first + others);
    assert(r_before.deep_view().len() == r_before@.len());
    assert(r_after.deep_view().len() == r_after@.len());
    assert(r_after.deep_view().drop_last() =~= r_before.deep_view());
}

/// Unwinding info is used once: code that is loaded after other code, with no info between, adds no
/// unwind data. Neither does code that no info comes before, nor a record that loads nothing.
pub proof fn law_unwinding_info_is_used_once(
    before: Vec<JitRecord>,
    after: Vec<JitRecord>,
    others: Seq<JitRecordView>,
    load: JitRecordView,
    r_before: Vec<(UnwindData, ProcessUnwindData)>,
    r_after: Vec<(UnwindData, ProcessUnwindData)>,
)
    requires
        call_ensures(unwind_data_of_records, (before,), r_before),
        call_ensures(unwind_data_of_records, (after,), r_after),
        forall|i: int| 0 <= i < others.len() ==> #[trigger] others[i] is Other,
        before@.len() == 0 || before.deep_view().last() is CodeLoad || !(load is CodeLoad),
        after.deep_view() == (before.deep_view() + others).push(load),
    ensures
        r_after.deep_view() == r_before.deep_view(),
{
    lemma_pending_keeps(before.deep_view(), others);
    assert(after.deep_view().drop_last() =~= before.deep_view() + others);
}

/// The four bytes of a number come with the highest first in a dump of the one byte order, and with
/// the lowest first in one of the other.
pub proof fn law_numbers_in_dumps(bytes: Seq<u8>, at: int)
    ensures
        u32_at(bytes, true, at) == bytes[at] * 0x100_0000 + bytes[at + 1] * 0x1_0000 + bytes[at + 2]
            * 0x100 + bytes[at + 3],
        u32_at(bytes, false, at) == bytes[at] + bytes[at + 1] * 0x100 + bytes[at + 2] * 0x1_0000
            + bytes[at + 3] * 0x100_0000,
        u64_at(bytes, true, at) == u32_at(bytes, true, at) * 0x1_0000_0000 + u32_at(
            bytes,
            true,
            at + 4,
        ),
        u64_at(bytes, false, at) == u32_at(bytes, false, at) + u32_at(bytes, false, at + 4)
            * 0x1_0000_0000,
{
}

/// Whether `bytes` begin with the mark of a dump of this byte order.
pub open spec fn is_marked(bytes: Seq<u8>, big_endian: bool) -> bool {
    &&& bytes.len() >= 4
    &&& if big_endian {
        bytes[0] == 0x4a && bytes[1] == 0x69 && bytes[2] == 0x54 && bytes[3] == 0x44
    } else {
        bytes[0] == 0x44 && bytes[1] == 0x54 && bytes[2] == 0x69 && bytes[3] == 0x4a
    }
}

/// Whether the records of a dump begin at `starts`, each where the one before it ends, from the end
/// of a header that a reader accepts.
pub open spec fn begin_at(bytes: Seq<u8>, big_endian: bool, starts: Seq<int>) -> bool {
    &&& is_marked(bytes, big_endian)
    &&& starts.len() > 0
    &&& 40 <= starts[0] < 4096
    &&& bytes.len() >= 40
    &&& u32_at(bytes, big_endian, 8) == starts[0]
    &&& forall|k: int| 0 <= k < starts.len() ==> #[trigger] starts[k] + 16 <= bytes.len()
    &&& forall|k: int|
        0 <= k < starts.len() - 1 ==> {
            &&& u32_at(bytes, big_endian, #[trigger] starts[k] + 4) >= 16
            &&& starts[k + 1] == starts[k] + u32_at(bytes, big_endian, starts[k] + 4)
        }
}

proof fn lemma_marked(bytes: Seq<u8>, big_endian: bool)
    requires
        is_marked(bytes, big_endian),
    ensures
        byte_order(bytes) == Some(big_endian),
{
    let big = seq![0x4au8, 0x69, 0x54, 0x44];
    let little = seq![0x44u8, 0x54, 0x69, 0x4a];
    assert(big[0] == 0x4a && little[0] == 0x44);
    let magic = bytes.take(4);
    assert(magic[0] == bytes[0]);
    if big_endian {
        assert(magic =~= big);
    } else {
        assert(magic =~= little);
    }
}

proof fn lemma_records_reach(bytes: Seq<u8>, big_endian: bool, starts: Seq<int>, k: int)
    requires
        begin_at(bytes, big_endian, starts),
        0 <= k < starts.len(),
    ensures
        records_sound(bytes, big_endian, starts[0]) ==> records_sound(bytes, big_endian, starts[k]),
        overstated_from(bytes, big_endian, starts[0]) is None ==> overstated_from(
            bytes,
            big_endian,
            starts[k],
        ) is None,
        0 <= starts[k],
    decreases k,
{
    if k > 0 {
        lemma_records_reach(bytes, big_endian, starts, k - 1);
        assert(starts[k - 1] + 16 <= bytes.len());
        assert(starts[k] + 16 <= bytes.len());
        assert(starts[(k - 1) + 1] == starts[k - 1] + u32_at(bytes, big_endian, starts[k - 1] + 4));
    }
}

/// A dump with a record that is smaller than its own header cannot be read, wherever the record
/// is. One whose bytes are no dump can be given to the reader, which refuses it.
pub proof fn law_small_records_make_dumps_unreadable(
    bytes: &[u8],
    big_endian: bool,
    starts: Seq<int>,
    r: bool,
)
    requires
        call_ensures(is_readable, (bytes,), r),
    ensures
        begin_at(bytes@, big_endian, starts) && u32_at(bytes@, big_endian, starts.last() + 4) < 16
            ==> !r,
        is_marked(bytes@, big_endian) && bytes@.len() >= 4096 && u32_at(bytes@, big_endian, 8)
            == 4096 ==> !r,
        !is_marked(bytes@, true) && !is_marked(bytes@, false) ==> r,
{
    if begin_at(bytes@, big_endian, starts) && u32_at(bytes@, big_endian, starts.last() + 4) < 16 {
        lemma_marked(bytes@, big_endian);
        lemma_records_reach(bytes@, big_endian, starts, starts.len() - 1);
        assert(starts[0] + 16 <= bytes@.len());
        assert(starts[starts.len() - 1] + 16 <= bytes@.len());
    }
    if is_marked(bytes@, big_endian) {
        lemma_marked(bytes@, big_endian);
    }
    if !is_marked(bytes@, true) && !is_marked(bytes@, false) && bytes@.len() >= 4 {
        let magic = bytes@.take(4);
        assert(magic[0] == bytes@[0] && magic[1] == bytes@[1] && magic[2] == bytes@[2] && magic[3]
            == bytes@[3]);
        let big = seq![0x4au8, 0x69, 0x54, 0x44];
        let little = seq![0x44u8, 0x54, 0x69, 0x4a];
        assert(big[0] == 0x4a && big[1] == 0x69 && big[2] == 0x54 && big[3] == 0x44);
        assert(little[0] == 0x44 && little[1] == 0x54 && little[2] == 0x69 && little[3] == 0x4a);
    }
}

/// A dump with a complete record that announces more source lines than it has bytes gives an
/// error, wherever the record is.
pub proof fn law_overstating_records_are_errors(
    dump: JitDump,
    bytes: &[u8],
    big_endian: bool,
    starts: Seq<int>,
    r: Result<ModuleSymbols, JitError>,
)
    requires
        call_ensures(JitDump::into_perf_map, (dump, bytes), r),
        begin_at(bytes@, big_endian, starts),
        u32_at(bytes@, big_endian, starts.last()) == 2,
        u32_at(bytes@, big_endian, starts.last() + 4) >= 32,
        starts.last() + u32_at(bytes@, big_endian, starts.last() + 4) <= bytes@.len(),
        u64_at(bytes@, big_endian, starts.last() + 24) > u32_at(
            bytes@,
            big_endian,
            starts.last() + 4,
        ),
    ensures
        r is Err,
{
    lemma_marked(bytes@, big_endian);
    lemma_records_reach(bytes@, big_endian, starts, starts.len() - 1);
    assert(starts[0] + 16 <= bytes@.len());
    assert(starts[starts.len() - 1] + 16 <= bytes@.len());
    assert(overstated_from(bytes@, big_endian, starts.last()) is Some);
}

/// What is read of a dump is what the reader gives for it: a dump that is read gives the symbols
/// and the unwind data of all its records, and an error of the reader is passed on.
pub proof fn law_dumps_are_what_is_read(
    dump: JitDump,
    bytes: &[u8],
    records: &Vec<JitRecord>,
    symbols: ModuleSymbols,
    r: Result<ModuleSymbols, JitError>,
    data: Result<Vec<(UnwindData, ProcessUnwindData)>, JitError>,
    all: Vec<(UnwindData, ProcessUnwindData)>,
)
    requires
        call_ensures(JitDump::into_perf_map, (dump, bytes), r),
        call_ensures(JitDump::into_unwind_data, (dump, bytes), data),
        call_ensures(symbols_of_records, (records,), symbols),
        call_ensures(unwind_data_of_records, (*records,), all),
    ensures
        r is Ok <==> data is Ok,
        r is Ok ==> jit_records(bytes@) is Ok,
        (r matches Ok(s) && jit_records(bytes@) == Ok::<_, Seq<char>>(records.deep_view())) ==> (
        r->Ok_0.deep_view() == symbols.deep_view() && data->Ok_0.deep_view() == all.deep_view()),
        !is_marked(bytes@, true) && !is_marked(bytes@, false) ==> (r is Ok <==> jit_records(bytes@)
            is Ok),
        (r, jit_records(bytes@)) matches (Err(JitError::Read(m)), Err(message)) ==> (!is_marked(
            bytes@,
            true,
        ) && !is_marked(bytes@, false) ==> m@ == message),
{
    if !is_marked(bytes@, true) && !is_marked(bytes@, false) && bytes@.len() >= 4 {
        let magic = bytes@.take(4);
        assert(magic[0] == bytes@[0] && magic[1] == bytes@[1] && magic[2] == bytes@[2] && magic[3]
            == bytes@[3]);
        let big = seq![0x4au8, 0x69, 0x54, 0x44];
        let little = seq![0x44u8, 0x54, 0x69, 0x4a];
        assert(big[0] == 0x4a && big[1] == 0x69 && big[2] == 0x54 && big[3] == 0x44);
        assert(little[0] == 0x44 && little[1] == 0x54 && little[2] == 0x69 && little[3] == 0x4a);
    }
}

proof fn lemma_overstated_is(bytes: Seq<u8>, big_endian: bool, at: int)
    requires
        0 <= at,
    ensures
        overstated_from(bytes, big_endian, at) matches Some(found) ==> {
            &&& at <= found
            &&& found + 32 <= bytes.len()
            &&& u32_at(bytes, big_endian, found) == 2
            &&& u64_at(bytes, big_endian, found + 24) > u32_at(bytes, big_endian, found + 4)
        },
    decreases bytes.len() - at,
{
    if at + 16 <= bytes.len() {
        let size = u32_at(bytes, big_endian, at + 4);
        if size >= 16 && at + size <= bytes.len() {
            lemma_overstated_is(bytes, big_endian, at + size);
        }
    }
}

/// A dump in which nothing is announced in excess is read whole: where no four bytes tell of
/// source lines with more of them than the record is long, the result is that of the reader.
pub proof fn law_sound_dumps_are_read_whole(
    dump: JitDump,
    bytes: &[u8],
    r: Result<ModuleSymbols, JitError>,
)
    requires
        call_ensures(JitDump::into_perf_map, (dump, bytes), r),
        forall|at: int, big_endian: bool|
            40 <= at && at + 32 <= bytes@.len() && #[trigger] u32_at(bytes@, big_endian, at) == 2
                ==> u64_at(bytes@, big_endian, at + 24) <= u32_at(bytes@, big_endian, at + 4),
    ensures
        r is Ok <==> jit_records(bytes@) is Ok,
        r is Err ==> jit_records(bytes@) == Err::<Seq<JitRecordView>, _>(r->Err_0->Read_0@),
{
    if let Some(size) = header_size(bytes@) {
        let big_endian = byte_order(bytes@)->0;
        lemma_overstated_is(bytes@, big_endian, size as int);
        if let Some(found) = overstated_from(bytes@, big_endian, size as int) {
            assert(u32_at(bytes@, big_endian, found) == 2);
        }
    }
}

/// A process dumps its code to a file in `/tmp` that is named after it.
pub proof fn law_dump_is_named_after_its_process(pid: i32, r: String)
    requires
        call_ensures(jit_dump_path, (pid,), r),
    ensures
        r@ == "/tmp/jit-"@ + crate::numeral::signed_decimal(pid as int) + ".dump"@,
{
    reveal_strlit("/tmp/jit-");
    reveal_strlit("/tmp");
    reveal_strlit("jit-");
    let number = crate::numeral::signed_decimal(pid as int);
    let name = "jit-"@ + number + ".dump"@;
    assert(name[0] == 'j');
    crate::path::law_joined_paths_have_one_separator("/tmp"@, name);
    assert("/tmp"@ + seq!['/'] + name =~= "/tmp/jit-"@ + number + ".dump"@);
}

proof fn lemma_harvested_maps(folder: Seq<char>, dumps: Seq<PidDump>, j: int)
    requires
        0 <= j < dumps.len(),
        dumps[j].1 is Some,
        records_in(dumps[j].1->0@) is Ok,
    ensures
        harvested_maps(folder, dumps).contains(
            (
                perf_map_path(folder, dumps[j].0),
                super::module_symbols::symbol_lines(
                    loaded_symbols(records_in(dumps[j].1->0@)->Ok_0),
                ),
            ),
        ),
        harvested_unwind_data(dumps).contains_key(dumps[j].0),
        (forall|k: int| j < k < dumps.len() ==> (#[trigger] dumps[k]).0 != dumps[j].0)
            ==> harvested_unwind_data(dumps)[dumps[j].0] == harvested(
            records_in(dumps[j].1->0@)->Ok_0,
        ),
    decreases dumps.len(),
{
    let before = dumps.drop_last();
    let rest = harvested_maps(folder, before);
    let all = harvested_maps(folder, dumps);
    let entry = (
        perf_map_path(folder, dumps[j].0),
        super::module_symbols::symbol_lines(loaded_symbols(records_in(dumps[j].1->0@)->Ok_0)),
    );
    if j < dumps.len() - 1 {
        assert(before[j] == dumps[j]);
        lemma_harvested_maps(folder, before, j);
        let k = choose|k: int| 0 <= k < rest.len() && rest[k] == entry;
        assert(all[k] == entry);
        if forall|k: int| j < k < dumps.len() ==> (#[trigger] dumps[k]).0 != dumps[j].0 {
            assert(dumps[dumps.len() - 1].0 != dumps[j].0);
            assert forall|k: int| j < k < before.len() implies (#[trigger] before[k]).0
                != before[j].0 by {
                assert(before[k] == dumps[k]);
            }
        }
    } else {
        assert(all.last() == entry);
        assert(all[all.len() - 1] == entry);
    }
}

proof fn lemma_harvested_from(folder: Seq<char>, dumps: Seq<PidDump>)
    ensures
        harvested_maps(folder, dumps).len() <= dumps.len(),
        forall|pid: i32| #[trigger]
            harvested_unwind_data(dumps).contains_key(pid) ==> exists|j: int|
                0 <= j < dumps.len() && (#[trigger] dumps[j]).0 == pid && dumps[j].1 is Some
                    && records_in(dumps[j].1->0@) is Ok,
    decreases dumps.len(),
{
    if dumps.len() > 0 {
        let before = dumps.drop_last();
        lemma_harvested_from(folder, before);
        assert forall|pid: i32| #[trigger]
            harvested_unwind_data(dumps).contains_key(pid) implies exists|j: int|
            0 <= j < dumps.len() && (#[trigger] dumps[j]).0 == pid && dumps[j].1 is Some
                && records_in(dumps[j].1->0@) is Ok by {
            if harvested_unwind_data(before).contains_key(pid) {
                let j = choose|j: int|
                    0 <= j < before.len() && (#[trigger] before[j]).0 == pid && before[j].1 is Some
                        && records_in(before[j].1->0@) is Ok;
                assert(dumps[j] == before[j]);
            } else {
                assert(dumps[dumps.len() - 1].0 == pid);
            }
        }
    }
}

/// The symbols of each dump that can be read go to the map of its process in the profile, and its
/// unwind data to the process. A later dump of the same process takes the place of an earlier one
/// there.
pub proof fn law_every_dump_is_harvested(
    folder: &str,
    dumps: &Vec<PidDump>,
    j: int,
    dump: JitDump,
    content: &[u8],
    symbols: ModuleSymbols,
    data: Vec<(UnwindData, ProcessUnwindData)>,
    harvest: JitHarvest,
)
    requires
        call_ensures(
            save_symbols_and_harvest_unwind_data_for_pids,
            (folder, dumps),
            Some(harvest),
        ),
        0 <= j < dumps@.len(),
        dumps@[j].1 matches Some(bytes) && bytes@ == content@,
        call_ensures(JitDump::into_perf_map, (dump, content), Ok(symbols)),
        call_ensures(JitDump::into_unwind_data, (dump, content), Ok(data)),
    ensures
        harvest.perf_maps.deep_view().contains(
            (
                crate::path::joined_path(
                    folder@,
                    "perf-"@ + crate::numeral::signed_decimal(dumps@[j].0 as int) + ".map"@,
                ),
                super::module_symbols::symbol_lines(symbols.deep_view()),
            ),
        ),
        harvest.unwind_data_by_pid@.contains_key(dumps@[j].0),
        (forall|k: int| j < k < dumps@.len() ==> (#[trigger] dumps@[k]).0 != dumps@[j].0)
            ==> harvest.unwind_data_by_pid@[dumps@[j].0].deep_view() == data.deep_view(),
{
    lemma_harvested_maps(folder@, dumps@, j);
    assert(harvested_unwind_data(dumps@).dom().contains(dumps@[j].0));
    assert(harvest.unwind_data_by_pid@.dom().contains(dumps@[j].0));
}

/// A process has unwind data only if it dumped code that can be read, and there are no more maps
/// than dumps.
pub proof fn law_only_dumps_are_harvested(
    folder: &str,
    dumps: &Vec<PidDump>,
    pid: i32,
    harvest: JitHarvest,
)
    requires
        call_ensures(
            save_symbols_and_harvest_unwind_data_for_pids,
            (folder, dumps),
            Some(harvest),
        ),
    ensures
        harvest.perf_maps@.len() <= dumps@.len(),
        harvest.unwind_data_by_pid@.contains_key(pid) ==> exists|j: int|
            0 <= j < dumps@.len() && (#[trigger] dumps@[j]).0 == pid && dumps@[j].1 is Some,
        (forall|j: int| 0 <= j < dumps@.len() ==> (#[trigger] dumps@[j]).1 is None)
            ==> harvest.perf_maps@.len() == 0,
{
    lemma_harvested_from(folder@, dumps@);
    assert(harvest.perf_maps.deep_view().len() == harvest.perf_maps@.len());
    if harvest.unwind_data_by_pid@.contains_key(pid) {
        assert(harvest.unwind_data_by_pid@.dom().contains(pid));
        assert(harvested_unwind_data(dumps@).contains_key(pid));
    }
    if forall|j: int| 0 <= j < dumps@.len() ==> (#[trigger] dumps@[j]).1 is None {
        lemma_no_dumps(folder@, dumps@);
    }
}

proof fn lemma_no_dumps(folder: Seq<char>, dumps: Seq<PidDump>)
    requires
        forall|j: int| 0 <= j < dumps.len() ==> (#[trigger] dumps[j]).1 is None,
    ensures
        harvested_maps(folder, dumps).len() == 0,
    decreases dumps.len(),
{
    if dumps.len() > 0 {
        let before = dumps.drop_last();
        assert forall|j: int| 0 <= j < before.len() implies (#[trigger] before[j]).1 is None by {
            assert(before[j] == dumps[j]);
        }
        lemma_no_dumps(folder, before);
        assert(dumps[dumps.len() - 1].1 is None);
    }
}

/// Where all code ends before the last address there is a result, and it is that of
/// [`JitDump::into_unwind_data`].
pub proof fn law_trying_gives_the_unwind_data(
    dump: JitDump,
    bytes: &[u8],
    r: Option<Result<Vec<(UnwindData, ProcessUnwindData)>, JitError>>,
    plain: Result<Vec<(UnwindData, ProcessUnwindData)>, JitError>,
)
    requires
        call_ensures(JitDump::try_into_unwind_data, (dump, bytes), r),
        call_ensures(JitDump::into_unwind_data, (dump, bytes), plain),
    ensures
        (jit_records(bytes@) matches Ok(records) ==> forall|i: int|
            0 <= i < records.len() ==> ((#[trigger] records[i]) matches JitRecordView::CodeLoad {
                vma,
                code_size,
                ..
            } ==> vma + code_size <= u64::MAX)) ==> r is Some,
        r matches Some(x) ==> (x is Ok <==> plain is Ok),
        (r, plain) matches (Some(Ok(x)), Ok(y)) ==> x.deep_view() == y.deep_view(),
{
}

} // verus!
