//! Where the symbols of modules are defined.
use addr2line::fallible_iterator::FallibleIterator;
use addr2line::gimli;
use vstd::prelude::*;

use super::loaded_module::LoadedModule;
use super::module_symbols::{ModuleSymbols, Symbol, SymbolView};
use crate::bytes::quote;
use crate::elf::{check_object, is_little_endian, section_by_name, uncompressed_data};
use crate::path::file_name;
use crate::runner_shared::debug_info::{
    DebugInfo, DebugInfoView, ModuleDebugInfo,
};
use crate::sort::{sort, Ranked};
use crate::text::{owned_text, starts_with};

verus! {

/// Debug info is ordered by address, so that it can be searched.
impl Ranked for DebugInfo {
    open spec fn ranked(a: DebugInfoView, b: DebugInfoView) -> bool {
        a.addr <= b.addr
    }

    proof fn ranked_is_total(a: DebugInfoView, b: DebugInfoView) {
    }

    proof fn ranked_is_transitive(a: DebugInfoView, b: DebugInfoView, c: DebugInfoView) {
    }

    fn at_most(&self, other: &Self) -> (r: bool) {
        self.addr <= other.addr
    }
}

// ---------------------------------------------------------------------------------------------
// Frames
// ---------------------------------------------------------------------------------------------

/// A place in the source code, as far as it is known.
#[derive(Debug)]
pub struct SourceRow {
    pub file: Option<String>,
    pub line: Option<u32>,
}

pub struct SourceRowView {
    pub file: Option<Seq<char>>,
    pub line: Option<u32>,
}

impl DeepView for SourceRow {
    type V = SourceRowView;

    open spec fn deep_view(&self) -> SourceRowView {
        SourceRowView { file: self.file.deep_view(), line: self.line }
    }
}

/// The frames at an address, from the innermost inlined function to the function that is not
/// inlined, with the place of each. `None` where they cannot be found.
pub type Frames = Option<Vec<Option<SourceRow>>>;

/// The view of [`Frames`].
pub type FramesView = Option<Seq<Option<SourceRowView>>>;

/// The frames that the DWARF sections of an object file give for addresses, or the message of the
/// error that comes up when the sections are loaded.
pub uninterp spec fn frames_in(
    bytes: Seq<u8>,
    little_endian: bool,
    addrs: Seq<u64>,
) -> Result<Seq<FramesView>, Seq<char>>;

/// The view of what was found.
pub open spec fn frames_view(r: Result<Vec<Frames>, String>) -> Result<Seq<FramesView>, Seq<char>> {
    match r {
        Ok(frames) => Ok(frames.deep_view()),
        Err(message) => Err(message@),
    }
}

/// The contents of a section of an object file; none where it is missing or cannot be
/// decompressed.
fn section_contents(bytes: &[u8], name: &str) -> (r: Vec<u8>)
    ensures
        r.deep_view() == (match crate::elf::uncompressed_section(bytes@, name@) {
            Some(data) => data,
            None => seq![],
        }),
{
    match uncompressed_data(bytes, name) {
        Some(data) => data,
        None => {
            let r: Vec<u8> = Vec::new();
            assert(r.deep_view() =~= seq![]);
            r
        },
    }
}

fn source_row(file: Option<&str>, line: Option<u32>) -> (r: SourceRow)
    ensures
        r.deep_view() == (SourceRowView { file: crate::text::text_of(file), line }),
{
    SourceRow { file: owned_text(file), line }
}

/// `addr2line::Context::find_frames` for each address, in a context over the
/// sections that `gimli::DwarfSections::load` takes from the object file; the frames of an address
/// are missing where an error comes up.
///
/// The last address of all is left out, as the lookup adds one to it. There is one result for each
/// address.
#[verifier::external_body]
fn find_frames(bytes: &[u8], little_endian: bool, addrs: &Vec<u64>) -> (r: Result<
    Vec<Frames>,
    String,
>)
    requires
        forall|i: int| 0 <= i < addrs@.len() ==> #[trigger] addrs@[i] < u64::MAX,
    ensures
        frames_view(r) == frames_in(bytes@, little_endian, addrs@),
        r matches Ok(frames) ==> frames@.len() == addrs@.len(),
{
    let endian = if little_endian { gimli::RunTimeEndian::Little } else { gimli::RunTimeEndian::Big };
    let sections = gimli::DwarfSections::load(
        |id| Ok::<_, gimli::Error>(section_contents(bytes, id.name())),
    ).map_err(|e| e.to_string())?;
    let dwarf = sections.borrow(|data| gimli::EndianSlice::new(data, endian));
    let context = addr2line::Context::from_dwarf(dwarf).map_err(|e| e.to_string())?;
    Ok(addrs.iter().map(|addr| {
        let frames = context.find_frames(*addr).skip_all_loads().ok()?;
        frames.map(|f| Ok(f.location.map(|l| source_row(l.file, l.line)))).collect().ok()
    }).collect())
}

/// The place of the outermost frame, the one that is not inlined, if its file is known.
pub open spec fn outer_place(frames: FramesView) -> Option<(Seq<char>, Option<u32>)> {
    match frames {
        Some(f) => if f.len() > 0 {
            match f.last() {
                Some(row) => match row.file {
                    Some(file) => Some((file, row.line)),
                    None => None,
                },
                None => None,
            }
        } else {
            None
        },
        None => None,
    }
}

/// The symbols whose places are known, with them.
pub open spec fn located(symbols: Seq<SymbolView>, frames: Seq<FramesView>) -> Seq<DebugInfoView>
    decreases symbols.len(),
{
    if symbols.len() == 0 {
        seq![]
    } else {
        let s = symbols.last();
        let rest = located(symbols.drop_last(), frames);
        match outer_place(frames[symbols.len() - 1]) {
            Some((file, line)) => rest.push(
                DebugInfoView { addr: s.addr, size: s.size, name: s.name, file, line },
            ),
            None => rest,
        }
    }
}

/// Whether no located symbol ends beyond the last address.
pub open spec fn located_fit(s: Seq<DebugInfoView>) -> bool {
    forall|i: int| 0 <= i < s.len() ==> (#[trigger] s[i]).addr + s[i].size <= u64::MAX
}

/// Whether `b` covers all of `s`, and nothing before the first or after the last of them.
pub open spec fn covers(s: Seq<DebugInfoView>, b: (u64, u64)) -> bool {
    &&& forall|i: int|
        0 <= i < s.len() ==> b.0 <= (#[trigger] s[i]).addr && s[i].addr + s[i].size <= b.1
    &&& exists|i: int| 0 <= i < s.len() && (#[trigger] s[i]).addr == b.0
    &&& exists|i: int| 0 <= i < s.len() && (#[trigger] s[i]).addr + s[i].size == b.1
}

/// What the frames of the symbols of the module at `path` are turned into.
pub open spec fn module_info(
    path: Seq<char>,
    load_bias: u64,
    infos: Seq<DebugInfoView>,
    r: Result<ModuleDebugInfo, DebugInfoError>,
) -> bool {
    if infos.len() == 0 {
        r matches Err(e) && e is NoDebugInfo
    } else {
        &&& r matches Ok(m)
        &&& m.object_path@ == path
        &&& m.load_bias == load_bias
        &&& covers(infos, m.addr_bounds)
        &&& m.debug_infos.deep_view() == crate::sort::stable_sorted::<DebugInfo>(infos)
    }
}

// ---------------------------------------------------------------------------------------------
// Errors
// ---------------------------------------------------------------------------------------------

/// Why a module gives no debug info.
#[derive(Debug, PartialEq, Eq)]
pub enum DebugInfoError {
    /// The file of the module, or its debug file, is no object file.
    Object(String),
    /// The DWARF sections of the file cannot be loaded.
    Dwarf(String),
    /// The DWARF sections of the debug file cannot be loaded.
    DebugFileDwarf(String),
    /// The file at this path has no DWARF sections, and there is no debug file.
    NoDwarf(String),
    /// The place of no symbol is known.
    NoDebugInfo,
}

impl DebugInfoError {
    /// The text of the error.
    pub open spec fn text(self) -> Seq<char> {
        match self {
            DebugInfoError::Object(message) => message@,
            DebugInfoError::Dwarf(_) => "Failed to create DWARF context"@,
            DebugInfoError::DebugFileDwarf(_) => "Failed to create DWARF context from debug file"@,
            DebugInfoError::NoDwarf(path) => "No DWARF in "@ + crate::bytes::quoted(path@)
                + " and no separate debug file found"@,
            DebugInfoError::NoDebugInfo => "No debug info could be extracted from module"@,
        }
    }

    /// The text of the error.
    pub fn message(&self) -> (r: String)
        ensures
            r@ == self.text(),
    {
        match self {
            DebugInfoError::Object(message) => message.clone(),
            DebugInfoError::Dwarf(_) => "Failed to create DWARF context".to_owned(),
            DebugInfoError::DebugFileDwarf(_) => {
                "Failed to create DWARF context from debug file".to_owned()
            },
            DebugInfoError::NoDwarf(path) => {
                let mut text = "No DWARF in ".to_owned();
                text.append(quote(path.as_str()).as_str());
                text.append(" and no separate debug file found");
                text
            },
            DebugInfoError::NoDebugInfo => {
                "No debug info could be extracted from module".to_owned()
            },
        }
    }
}

// ---------------------------------------------------------------------------------------------
// Debug info
// ---------------------------------------------------------------------------------------------

fn place_of(frames: &Frames) -> (r: Option<(&String, Option<u32>)>)
    ensures
        match r {
            Some((file, line)) => outer_place(frames.deep_view()) == Some((file@, line)),
            None => outer_place(frames.deep_view()) is None,
        },
{
    match frames {
        Some(rows) => {
            let n: usize = rows.len();
            if n == 0 {
                return None;
            }
            assert(rows.deep_view().last() == rows@[n - 1].deep_view());
            match &rows[n - 1] {
                Some(row) => match &row.file {
                    Some(file) => Some((file, row.line)),
                    None => None,
                },
                None => None,
            }
        },
        None => None,
    }
}

fn locate(symbols: &[Symbol], frames: &Vec<Frames>) -> (r: Vec<DebugInfo>)
    requires
        symbols@.len() == frames@.len(),
    ensures
        r.deep_view() == located(symbols.deep_view(), frames.deep_view()),
{
    let ghost all = symbols.deep_view();
    let ghost places = frames.deep_view();
    let mut out: Vec<DebugInfo> = Vec::new();
    let mut i: usize = 0;
    assert(all.take(0) =~= seq![]);
    while i < symbols.len()
        invariant
            symbols@.len() == frames@.len(),
            all == symbols.deep_view(),
            places == frames.deep_view(),
            i <= symbols@.len(),
            out.deep_view() == located(all.take(i as int), places),
        decreases symbols.len() - i,
    {
        let ghost before = out;
        let s = &symbols[i];
        assert(all[i as int] == s.deep_view());
        assert(places[i as int] == frames@[i as int].deep_view());
        assert(all.take(i + 1).drop_last() =~= all.take(i as int));
        if let Some((file, line)) = place_of(&frames[i]) {
            let info = DebugInfo {
                addr: s.addr,
                size: s.size,
                name: s.name.clone(),
                file: file.clone(),
                line,
            };
            out.push(info);
            proof {
                crate::list::lemma_deep_push(before, info, out);
            }
        }
        i = i + 1;
    }
    assert(all.take(all.len() as int) =~= all);
    out
}

fn bounds(infos: &Vec<DebugInfo>) -> (r: (u64, u64))
    requires
        infos@.len() > 0,
        located_fit(infos.deep_view()),
    ensures
        covers(infos.deep_view(), r),
{
    let ghost s = infos.deep_view();
    assert(s[0] == infos@[0].deep_view());
    let mut min: u64 = infos[0].addr;
    let mut max: u64 = infos[0].addr + infos[0].size;
    let mut i: usize = 1;
    assert(s.take(1)[0] == s[0]);
    while i < infos.len()
        invariant
            s == infos.deep_view(),
            located_fit(s),
            1 <= i <= infos@.len(),
            covers(s.take(i as int), (min, max)),
        decreases infos.len() - i,
    {
        let ghost t = s.take(i as int);
        let ghost u = s.take(i + 1);
        assert(s[i as int] == infos@[i as int].deep_view());
        let addr: u64 = infos[i].addr;
        let end: u64 = addr + infos[i].size;
        let ghost a = choose|j: int| 0 <= j < t.len() && (#[trigger] t[j]).addr == min;
        let ghost b = choose|j: int| 0 <= j < t.len() && (#[trigger] t[j]).addr + t[j].size == max;
        assert(u[a] == t[a] && u[b] == t[b]);
        assert(u[i as int] == s[i as int]);
        if addr < min {
            min = addr;
        }
        if end > max {
            max = end;
        }
        assert forall|j: int| 0 <= j < u.len() implies min <= (#[trigger] u[j]).addr && u[j].addr
            + u[j].size <= max by {
            if j < i {
                assert(t[j] == u[j]);
            }
        }
        i = i + 1;
    }
    assert(s.take(s.len() as int) =~= s);
    (min, max)
}

/// The debug info of the module at `path`, from the frames at the addresses of its symbols.
pub fn debug_info_from_frames(
    path: &str,
    symbols: &ModuleSymbols,
    load_bias: u64,
    frames: &Vec<Frames>,
) -> (r: Result<ModuleDebugInfo, DebugInfoError>)
    requires
        symbols.deep_view().len() == frames@.len(),
        located_fit(located(symbols.deep_view(), frames.deep_view())),
    ensures
        module_info(path@, load_bias, located(symbols.deep_view(), frames.deep_view()), r),
{
    let infos = locate(symbols.symbols(), frames);
    if infos.len() == 0 {
        return Err(DebugInfoError::NoDebugInfo);
    }
    let addr_bounds = bounds(&infos);
    Ok(
        ModuleDebugInfo {
            object_path: path.to_owned(),
            load_bias,
            addr_bounds,
            debug_infos: sort(infos),
        },
    )
}

/// The addresses of symbols.
pub open spec fn addresses(symbols: Seq<SymbolView>) -> Seq<u64> {
    Seq::new(symbols.len(), |i: int| symbols[i].addr)
}

/// The object file whose DWARF sections are used: that of the module, if it has some, and otherwise
/// its debug file.
pub open spec fn dwarf_source(content: Seq<u8>, debug_file: Option<Seq<u8>>) -> Option<Seq<u8>> {
    if crate::elf::object_error(content) is Some {
        None
    } else if crate::elf::section_named(content, ".debug_info"@) is Some {
        Some(content)
    } else {
        match debug_file {
            Some(bytes) => if crate::elf::object_error(bytes) is None {
                Some(bytes)
            } else {
                None
            },
            None => None,
        }
    }
}

/// The frames that an object file gives for the addresses of symbols.
pub open spec fn source_frames(bytes: Seq<u8>, symbols: Seq<SymbolView>) -> Result<
    Seq<FramesView>,
    Seq<char>,
> {
    frames_in(bytes, crate::elf::little_endian(bytes), addresses(symbols))
}

/// What `from_symbols` returns.
pub open spec fn from_symbols_result(
    path: Seq<char>,
    symbols: Seq<SymbolView>,
    load_bias: u64,
    content: Seq<u8>,
    debug_file: Option<Seq<u8>>,
    r: Result<ModuleDebugInfo, DebugInfoError>,
) -> bool {
    match dwarf_source(content, debug_file) {
        Some(bytes) => match source_frames(bytes, symbols) {
            Ok(frames) => module_info(path, load_bias, located(symbols, frames), r),
            Err(message) => if crate::elf::section_named(content, ".debug_info"@) is Some {
                r matches Err(DebugInfoError::Dwarf(m)) && m@ == message
            } else {
                r matches Err(DebugInfoError::DebugFileDwarf(m)) && m@ == message
            },
        },
        None => match crate::elf::object_error(content) {
            Some(message) => r matches Err(DebugInfoError::Object(m)) && m@ == message,
            None => match debug_file {
                Some(bytes) => r matches Err(DebugInfoError::Object(m)) && Some(m@)
                    == crate::elf::object_error(bytes),
                None => r matches Err(DebugInfoError::NoDwarf(p)) && p@ == path,
            },
        },
    }
}

/// Whether no symbol begins at the last address, and no located one ends beyond it.
pub open spec fn addresses_fit(
    symbols: Seq<SymbolView>,
    content: Seq<u8>,
    debug_file: Option<Seq<u8>>,
) -> bool {
    dwarf_source(content, debug_file) matches Some(bytes) ==> {
        &&& forall|i: int| 0 <= i < symbols.len() ==> (#[trigger] symbols[i]).addr < u64::MAX
        &&& source_frames(bytes, symbols) matches Ok(frames) ==> located_fit(
            located(symbols, frames),
        )
    }
}

fn addresses_of(symbols: &[Symbol]) -> (r: Vec<u64>)
    ensures
        r@ == addresses(symbols.deep_view()),
{
    let mut out: Vec<u64> = Vec::new();
    let mut i: usize = 0;
    while i < symbols.len()
        invariant
            i <= symbols@.len(),
            out@.len() == i,
            forall|j: int| 0 <= j < i ==> out@[j] == (#[trigger] symbols@[j]).addr,
        decreases symbols.len() - i,
    {
        out.push(symbols[i].addr);
        i = i + 1;
    }
    assert(out@ =~= addresses(symbols.deep_view()));
    out
}

impl ModuleDebugInfo {
    /// The debug info of the module at `path` that holds `content`, for its symbols.
    ///
    /// Where the file has no DWARF sections, those of its separate debug file are used.
    pub fn from_symbols(
        path: &str,
        symbols: &ModuleSymbols,
        load_bias: u64,
        content: &[u8],
        debug_file: Option<&[u8]>,
    ) -> (r: Result<Self, DebugInfoError>)
        requires
            addresses_fit(symbols.deep_view(), content@, crate::elf::bytes_of(debug_file)),
        ensures
            from_symbols_result(
                path@,
                symbols.deep_view(),
                load_bias,
                content@,
                crate::elf::bytes_of(debug_file),
                r,
            ),
    {
        match check_object(content) {
            Some(message) => {
                return Err(DebugInfoError::Object(message));
            },
            None => {},
        }
        let addrs = addresses_of(symbols.symbols());
        if section_by_name(content, ".debug_info").is_some() {
            return match find_frames(content, is_little_endian(content), &addrs) {
                Ok(frames) => debug_info_from_frames(path, symbols, load_bias, &frames),
                Err(message) => Err(DebugInfoError::Dwarf(message)),
            };
        }
        let Some(debug_content) = debug_file else {
            return Err(DebugInfoError::NoDwarf(path.to_owned()));
        };
        match check_object(debug_content) {
            Some(message) => {
                return Err(DebugInfoError::Object(message));
            },
            None => {},
        }
        match find_frames(debug_content, is_little_endian(debug_content), &addrs) {
            Ok(frames) => debug_info_from_frames(path, symbols, load_bias, &frames),
            Err(message) => Err(DebugInfoError::DebugFileDwarf(message)),
        }
    }

    /// The debug info of a module, or `None` where one of its symbols begins at the last address
    /// or a located one would end beyond it.
    pub fn try_from_symbols(
        path: &str,
        symbols: &ModuleSymbols,
        load_bias: u64,
        content: &[u8],
        debug_file: Option<&[u8]>,
    ) -> (r: Option<Result<Self, DebugInfoError>>)
        ensures
            match r {
                Some(info) => from_symbols_result(
                    path@,
                    symbols.deep_view(),
                    load_bias,
                    content@,
                    crate::elf::bytes_of(debug_file),
                    info,
                ),
                None => !addresses_fit(
                    symbols.deep_view(),
                    content@,
                    crate::elf::bytes_of(debug_file),
                ),
            },
    {
        let source: Option<&[u8]> = if check_object(content).is_some() {
            None
        } else if section_by_name(content, ".debug_info").is_some() {
            Some(content)
        } else {
            match debug_file {
                Some(bytes) => if check_object(bytes).is_none() {
                    Some(bytes)
                } else {
                    None
                },
                None => None,
            }
        };
        assert(crate::elf::bytes_of(source) == dwarf_source(
            content@,
            crate::elf::bytes_of(debug_file),
        ));
        if let Some(bytes) = source {
            let addrs = addresses_of(symbols.symbols());
            if !begin_early(&addrs) {
                return None;
            }
            if let Ok(frames) = find_frames(bytes, is_little_endian(bytes), &addrs) {
                if !end_early(&locate(symbols.symbols(), &frames)) {
                    return None;
                }
            }
            assert forall|i: int| 0 <= i < symbols.deep_view().len() implies (
            #[trigger] symbols.deep_view()[i]).addr < u64::MAX by {
                assert(addrs@[i] == symbols.deep_view()[i].addr);
            }
        }
        Some(Self::from_symbols(path, symbols, load_bias, content, debug_file))
    }
}

fn begin_early(addrs: &Vec<u64>) -> (r: bool)
    ensures
        r == (forall|i: int| 0 <= i < addrs@.len() ==> #[trigger] addrs@[i] < u64::MAX),
{
    let mut i: usize = 0;
    while i < addrs.len()
        invariant
            i <= addrs@.len(),
            forall|j: int| 0 <= j < i ==> #[trigger] addrs@[j] < u64::MAX,
        decreases addrs.len() - i,
    {
        if addrs[i] == u64::MAX {
            return false;
        }
        i = i + 1;
    }
    true
}

fn end_early(infos: &Vec<DebugInfo>) -> (r: bool)
    ensures
        r == located_fit(infos.deep_view()),
{
    let ghost s = infos.deep_view();
    let mut i: usize = 0;
    while i < infos.len()
        invariant
            s == infos.deep_view(),
            i <= infos@.len(),
            forall|j: int| 0 <= j < i ==> (#[trigger] s[j]).addr + s[j].size <= u64::MAX,
        decreases infos.len() - i,
    {
        assert(s[i as int] == infos@[i as int].deep_view());
        if infos[i].size > u64::MAX - infos[i].addr {
            return false;
        }
        i = i + 1;
    }
    true
}

// ---------------------------------------------------------------------------------------------
// The C library
// ---------------------------------------------------------------------------------------------

/// Whether a file of this name is the C library.
pub open spec fn libc_filename(name: Seq<char>) -> bool {
    "libc.so"@.is_prefix_of(name) || "libc-"@.is_prefix_of(name)
}

/// Whether a file of this name is the C library.
pub fn is_libc_filename(file_name: &str) -> (r: bool)
    ensures
        r == libc_filename(file_name@),
{
    starts_with(file_name, "libc.so") || starts_with(file_name, "libc-")
}

/// What to tell of a module without debug info: how to install that of the C library, if it is
/// that.
pub open spec fn missing_libc_warning(path: Seq<char>) -> Option<Seq<char>> {
    match crate::path::file_name_of(path) {
        Some(name) => if libc_filename(name) {
            Some(
                "Debug info for "@ + path
                    + " not found. Install libc6-dbg (Debian/Ubuntu) or glibc-debuginfo (Fedora/RHEL) to fix missing symbols in the flamegraph"@,
            )
        } else {
            None
        },
        None => None,
    }
}

/// What to tell of a module without debug info: how to install that of the C library, if it is
/// that.
pub fn warn_missing_libc_debug_info(path: &str) -> (r: Option<String>)
    ensures
        r.deep_view() == missing_libc_warning(path@),
{
    let Some(name) = file_name(path) else {
        return None;
    };
    if !is_libc_filename(name.as_str()) {
        return None;
    }
    let mut text = "Debug info for ".to_owned();
    text.append(path);
    text.append(
        " not found. Install libc6-dbg (Debian/Ubuntu) or glibc-debuginfo (Fedora/RHEL) to fix missing symbols in the flamegraph",
    );
    Some(text)
}

// ---------------------------------------------------------------------------------------------
// All modules
// ---------------------------------------------------------------------------------------------

/// The files of a module: what its own holds, if it can be read, and its debug file, if there is
/// one.
#[derive(Debug)]
pub struct ModuleFiles {
    pub content: Option<Vec<u8>>,
    pub debug_file: DebugFile,
}

/// The separate debug file of a module.
#[derive(Debug)]
pub enum DebugFile {
    NotFound,
    /// There is one, but it cannot be read.
    Unreadable,
    Found(Vec<u8>),
}

/// Whether the debug info of a module depends on its debug file.
pub open spec fn needs_debug_file(content: Seq<u8>) -> bool {
    crate::elf::object_error(content) is None && crate::elf::section_named(content, ".debug_info"@)
        is None
}

/// What the debug file of a module holds, if it was found and read.
pub open spec fn debug_bytes(files: ModuleFiles) -> Option<Seq<u8>> {
    match files.debug_file {
        DebugFile::Found(bytes) => Some(bytes@),
        _ => None,
    }
}

/// Whether `info` is the debug info of a module. There is none without symbols, and none where a
/// file that is needed cannot be read.
pub open spec fn info_of_module(
    path: Seq<char>,
    module: LoadedModule,
    files: ModuleFiles,
    info: Option<ModuleDebugInfo>,
) -> bool {
    match (module.module_symbols, files.content) {
        (Some(symbols), Some(content)) => if needs_debug_file(content@)
            && files.debug_file is Unreadable {
            info is None
        } else {
            exists|r: Result<ModuleDebugInfo, DebugInfoError>| #[trigger]
                from_symbols_result(
                    path,
                    symbols.deep_view(),
                    0,
                    content@,
                    debug_bytes(files),
                    r,
                ) && (match r {
                    Ok(i) => info == Some(i),
                    Err(_) => info is None,
                })
        },
        _ => info is None,
    }
}

/// The debug info of one module, for no load bias in particular. The result is `None` where an
/// address of the module is out of range.
pub fn debug_info_of_module(path: &str, module: &LoadedModule, files: &ModuleFiles) -> (r: Option<
    Option<ModuleDebugInfo>,
>)
    ensures
        match r {
            Some(info) => info_of_module(path@, *module, *files, info),
            None => module.module_symbols is Some && files.content is Some && !addresses_fit(
                module.module_symbols->0.deep_view(),
                files.content->0@,
                debug_bytes(*files),
            ),
        },
{
    let Some(symbols) = &module.module_symbols else {
        return Some(None);
    };
    let Some(content) = &files.content else {
        return Some(None);
    };
    let debug_file: Option<&[u8]> = match &files.debug_file {
        DebugFile::Found(bytes) => Some(bytes.as_slice()),
        DebugFile::NotFound => None,
        DebugFile::Unreadable => {
            let bytes = content.as_slice();
            if check_object(bytes).is_none() && section_by_name(bytes, ".debug_info").is_none() {
                return Some(None);
            }
            None
        },
    };
    assert(crate::elf::bytes_of(debug_file) == debug_bytes(*files));
    match ModuleDebugInfo::try_from_symbols(path, symbols, 0, content.as_slice(), debug_file) {
        Some(result) => match result {
            Ok(info) => Some(Some(info)),
            Err(_) => Some(None),
        },
        None => None,
    }
}

/// What is known of the `i`-th symbol is among the located ones, and nothing else is.
proof fn lemma_located(symbols: Seq<SymbolView>, frames: Seq<FramesView>)
    ensures
        forall|i: int|
            0 <= i < symbols.len() && outer_place(#[trigger] frames[i]) is Some
                ==> located(symbols, frames).contains(
                DebugInfoView {
                    addr: symbols[i].addr,
                    size: symbols[i].size,
                    name: symbols[i].name,
                    file: outer_file(frames[i]),
                    line: outer_line(frames[i]),
                },
            ),
        forall|k: int|
            0 <= k < located(symbols, frames).len() ==> is_located(
                symbols,
                frames,
                #[trigger] located(symbols, frames)[k],
            ),
    decreases symbols.len(),
{
    if symbols.len() > 0 {
        let before = symbols.drop_last();
        let n = symbols.len() - 1;
        lemma_located(before, frames);
        let rest = located(before, frames);
        let all = located(symbols, frames);
        assert forall|i: int|
            0 <= i < symbols.len() && outer_place(#[trigger] frames[i]) is Some implies all.contains(
            DebugInfoView {
                addr: symbols[i].addr,
                size: symbols[i].size,
                name: symbols[i].name,
                file: outer_file(frames[i]),
                line: outer_line(frames[i]),
            },
        ) by {
            let info = DebugInfoView {
                addr: symbols[i].addr,
                size: symbols[i].size,
                name: symbols[i].name,
                file: outer_file(frames[i]),
                line: outer_line(frames[i]),
            };
            if i < n {
                assert(before[i] == symbols[i]);
                assert(rest.contains(info));
                let k = choose|k: int| 0 <= k < rest.len() && rest[k] == info;
                assert(all[k] == info);
            } else {
                assert(all[rest.len() as int] == info);
            }
        }
        assert forall|k: int| 0 <= k < all.len() implies is_located(
            symbols,
            frames,
            #[trigger] all[k],
        ) by {
            if k < rest.len() {
                assert(all[k] == rest[k]);
                let i = choose|i: int| 0 <= i < before.len() && is_place_of(
                    #[trigger] before[i],
                    frames[i],
                    rest[k],
                );
                assert(symbols[i] == before[i]);
            } else {
                assert(is_place_of(symbols[n], frames[n], all[k]));
            }
        }
    }
}

/// The file of the last frame.
pub open spec fn outer_file(frames: FramesView) -> Seq<char> {
    frames->0.last()->0.file->0
}

/// The line of the last frame.
pub open spec fn outer_line(frames: FramesView) -> Option<u32> {
    frames->0.last()->0.line
}

/// Whether `info` is the symbol with the place of the last of its frames.
pub open spec fn is_place_of(symbol: SymbolView, frames: FramesView, info: DebugInfoView) -> bool {
    &&& info.addr == symbol.addr
    &&& info.size == symbol.size
    &&& info.name == symbol.name
    &&& frames matches Some(f)
    &&& f.len() > 0
    &&& f.last() matches Some(row)
    &&& row.file == Some(info.file)
    &&& row.line == info.line
}

/// Whether `info` is one of the symbols with the place of the last of its frames.
pub open spec fn is_located(
    symbols: Seq<SymbolView>,
    frames: Seq<FramesView>,
    info: DebugInfoView,
) -> bool {
    exists|i: int|
        0 <= i < symbols.len() && is_place_of(#[trigger] symbols[i], frames[i], info)
}

/// A symbol is located by the last of its frames, the function that nothing is inlined into, and
/// only if the file of that is known. All that are located are kept, in the order of their
/// addresses, and no others.
pub proof fn law_symbols_are_placed_by_their_last_frame(
    path: &str,
    symbols: &ModuleSymbols,
    load_bias: u64,
    frames: &Vec<Frames>,
    r: Result<ModuleDebugInfo, DebugInfoError>,
    i: int,
    file: Seq<char>,
    line: Option<u32>,
)
    requires
        call_ensures(debug_info_from_frames, (path, symbols, load_bias, frames), r),
        symbols.deep_view().len() == frames@.len(),
        0 <= i < frames@.len(),
    ensures
        (frames.deep_view()[i] matches Some(f) && f.len() > 0 && f.last() == Some(
            SourceRowView { file: Some(file), line },
        )) ==> (r matches Ok(m) && m.debug_infos.deep_view().contains(
            DebugInfoView {
                addr: symbols.deep_view()[i].addr,
                size: symbols.deep_view()[i].size,
                name: symbols.deep_view()[i].name,
                file,
                line,
            },
        )),
        r is Err ==> r->Err_0 is NoDebugInfo,
        r matches Ok(m) ==> {
            &&& m.object_path@ == path@
            &&& m.load_bias == load_bias
            &&& m.debug_infos@.len() > 0
            &&& forall|k: int|
                0 <= k < m.debug_infos@.len() ==> is_located(
                    symbols.deep_view(),
                    frames.deep_view(),
                    #[trigger] m.debug_infos.deep_view()[k],
                )
            &&& forall|k: int, l: int|
                0 <= k <= l < m.debug_infos@.len() ==> (#[trigger] m.debug_infos@[k]).addr <= (
                #[trigger] m.debug_infos@[l]).addr
            &&& forall|k: int|
                0 <= k < m.debug_infos@.len() ==> m.addr_bounds.0 <= (
                #[trigger] m.debug_infos@[k]).addr && m.debug_infos@[k].addr
                    + m.debug_infos@[k].size <= m.addr_bounds.1
        },
{
    broadcast use vstd::seq_lib::group_to_multiset_ensures;

    let s = symbols.deep_view();
    let v = frames.deep_view();
    let infos = located(s, v);
    lemma_located(s, v);
    crate::sort::law_sorted_form_is_a_stable_sort::<DebugInfo>(infos);
    let sorted = crate::sort::stable_sorted::<DebugInfo>(infos);
    if v[i] matches Some(f) && f.len() > 0 && f.last() == Some(
        SourceRowView { file: Some(file), line },
    ) {
        assert(outer_place(v[i]) is Some);
        let info = DebugInfoView { addr: s[i].addr, size: s[i].size, name: s[i].name, file, line };
        assert(infos.contains(info));
        assert(sorted.to_multiset().contains(info));
        assert(sorted.contains(info));
    }
    if let Ok(m) = r {
        let all = m.debug_infos.deep_view();
        assert(all.len() == m.debug_infos@.len());
        assert(infos.len() == infos.to_multiset().len());
        assert(sorted.len() == sorted.to_multiset().len());
        assert forall|k: int| 0 <= k < m.debug_infos@.len() implies infos.contains(
            #[trigger] all[k],
        ) by {
            assert(sorted.contains(all[k]));
            assert(infos.to_multiset().contains(all[k]));
        }
        assert forall|k: int| 0 <= k < m.debug_infos@.len() implies is_located(
            s,
            v,
            #[trigger] all[k],
        ) by {
            let n = choose|n: int| 0 <= n < infos.len() && infos[n] == all[k];
            assert(is_located(s, v, infos[n]));
        }
        assert forall|k: int, l: int| 0 <= k <= l < m.debug_infos@.len() implies (
        #[trigger] m.debug_infos@[k]).addr <= (#[trigger] m.debug_infos@[l]).addr by {
            assert(all[k] == m.debug_infos@[k].deep_view());
            assert(all[l] == m.debug_infos@[l].deep_view());
            assert(DebugInfo::ranked(sorted[k], sorted[l]));
        }
        assert forall|k: int| 0 <= k < m.debug_infos@.len() implies m.addr_bounds.0 <= (
        #[trigger] m.debug_infos@[k]).addr && m.debug_infos@[k].addr + m.debug_infos@[k].size
            <= m.addr_bounds.1 by {
            assert(all[k] == m.debug_infos@[k].deep_view());
            let n = choose|n: int| 0 <= n < infos.len() && infos[n] == all[k];
            assert(m.addr_bounds.0 <= infos[n].addr);
        }
    }
}

/// The DWARF sections of the file itself are used where it has some, whatever its debug file
/// holds.
pub proof fn law_dwarf_of_the_file_comes_first(
    path: &str,
    symbols: &ModuleSymbols,
    load_bias: u64,
    content: &[u8],
    debug_file: Option<&[u8]>,
    r: Result<ModuleDebugInfo, DebugInfoError>,
)
    requires
        call_ensures(
            ModuleDebugInfo::from_symbols,
            (path, symbols, load_bias, content, debug_file),
            r,
        ),
        crate::elf::object_error(content@) is None,
        crate::elf::section_named(content@, ".debug_info"@) is Some,
    ensures
        match frames_in(
            content@,
            crate::elf::little_endian(content@),
            Seq::new(symbols.deep_view().len(), |i: int| symbols.deep_view()[i].addr),
        ) {
            Ok(found) => module_info(path@, load_bias, located(symbols.deep_view(), found), r),
            Err(message) => r matches Err(DebugInfoError::Dwarf(m)) && m@ == message,
        },
{
    assert(addresses(symbols.deep_view()) =~= Seq::new(
        symbols.deep_view().len(),
        |i: int| symbols.deep_view()[i].addr,
    ));
}

/// A file without DWARF sections of its own is located by those of its debug file. Without one
/// there is no debug info.
pub proof fn law_debug_file_stands_in(
    path: &str,
    symbols: &ModuleSymbols,
    load_bias: u64,
    content: &[u8],
    debug_file: Option<&[u8]>,
    r: Result<ModuleDebugInfo, DebugInfoError>,
)
    requires
        call_ensures(
            ModuleDebugInfo::from_symbols,
            (path, symbols, load_bias, content, debug_file),
            r,
        ),
        crate::elf::object_error(content@) is None,
        crate::elf::section_named(content@, ".debug_info"@) is None,
    ensures
        debug_file is None <==> (r matches Err(e) && e is NoDwarf),
        r matches Err(DebugInfoError::NoDwarf(p)) ==> p@ == path@,
        debug_file matches Some(bytes) ==> match crate::elf::object_error(bytes@) {
            Some(message) => r matches Err(DebugInfoError::Object(m)) && m@ == message,
            None => match frames_in(
                bytes@,
                crate::elf::little_endian(bytes@),
                Seq::new(symbols.deep_view().len(), |i: int| symbols.deep_view()[i].addr),
            ) {
                Ok(found) => module_info(path@, load_bias, located(symbols.deep_view(), found), r),
                Err(message) => r matches Err(DebugInfoError::DebugFileDwarf(m)) && m@ == message,
            },
        },
{
    assert(addresses(symbols.deep_view()) =~= Seq::new(
        symbols.deep_view().len(),
        |i: int| symbols.deep_view()[i].addr,
    ));
}

/// The C library is told by its name, `libc.so` or `libc-` with anything after it.
pub proof fn law_names_of_the_c_library(name: &str, rest: Seq<char>, r: bool)
    requires
        call_ensures(is_libc_filename, (name,), r),
    ensures
        name@ == "libc.so"@ + rest ==> r,
        name@ == "libc-"@ + rest ==> r,
        r ==> name@.len() >= 5 && name@[0] == 'l' && name@[1] == 'i' && name@[2] == 'b' && name@[3]
            == 'c' && (name@[4] == '-' || (name@.len() >= 7 && name@[4] == '.' && name@[5] == 's'
            && name@[6] == 'o')),
{
    reveal_strlit("libc.so");
    reveal_strlit("libc-");
    if r {
        if "libc.so"@.is_prefix_of(name@) {
            assert forall|i: int| 0 <= i < 7 implies #[trigger] name@[i] == "libc.so"@[i] by {
                assert(name@.subrange(0, 7)[i] == name@[i]);
            }
        } else {
            assert forall|i: int| 0 <= i < 5 implies #[trigger] name@[i] == "libc-"@[i] by {
                assert(name@.subrange(0, 5)[i] == name@[i]);
            }
        }
    }
    if name@ == "libc.so"@ + rest {
        assert(name@.subrange(0, 7) =~= "libc.so"@);
    }
    if name@ == "libc-"@ + rest {
        assert(name@.subrange(0, 5) =~= "libc-"@);
    }
}

/// A missing debug file is warned about for the C library, wherever it is, and for nothing else.
pub proof fn law_only_the_c_library_is_warned_about(
    path: &str,
    name: &str,
    r: Option<String>,
    is_libc: bool,
)
    requires
        call_ensures(warn_missing_libc_debug_info, (path,), r),
        call_ensures(is_libc_filename, (name,), is_libc),
        crate::path::file_name_of(path@) == Some(name@),
    ensures
        r is Some <==> is_libc,
        r matches Some(text) ==> text@ == "Debug info for "@ + path@
            + " not found. Install libc6-dbg (Debian/Ubuntu) or glibc-debuginfo (Fedora/RHEL) to fix missing symbols in the flamegraph"@,
{
}

/// The debug info of a module is that of its symbols in its files, for no load bias. There is none
/// without symbols, without its file, or where the debug file that is needed cannot be read.
pub proof fn law_modules_are_located_by_their_files(
    path: &str,
    module: &LoadedModule,
    files: &ModuleFiles,
    r: Option<Option<ModuleDebugInfo>>,
)
    requires
        call_ensures(debug_info_of_module, (path, module, files), r),
    ensures
        module.module_symbols is None || files.content is None ==> r == Some(
            None::<ModuleDebugInfo>,
        ),
        r matches Some(Some(info)) ==> info.load_bias == 0 && info.object_path@ == path@,
        (module.module_symbols, files.content) matches (Some(symbols), Some(content)) ==> (
        crate::elf::object_error(content@) is None && crate::elf::section_named(
            content@,
            ".debug_info"@,
        ) is None ==> (!(files.debug_file is Found) && r is Some ==> r->0 is None)),
        (module.module_symbols, files.content) matches (Some(symbols), Some(content)) ==> (
        crate::elf::object_error(content@) is None && crate::elf::section_named(
            content@,
            ".debug_info"@,
        ) is Some ==> (frames_in(
            content@,
            crate::elf::little_endian(content@),
            Seq::new(symbols.deep_view().len(), |i: int| symbols.deep_view()[i].addr),
        ) matches Ok(found) ==> (r is Some ==> (r->0 is Some <==> located(
            symbols.deep_view(),
            found,
        ).len() > 0)))),
{
    if let (Some(symbols), Some(content)) = (module.module_symbols, files.content) {
        assert(addresses(symbols.deep_view()) =~= Seq::new(
            symbols.deep_view().len(),
            |i: int| symbols.deep_view()[i].addr,
        ));
    }
}

/// Where all symbols begin and end before the last address there is a result, and it is that of
/// [`ModuleDebugInfo::from_symbols`].
pub proof fn law_trying_gives_the_debug_info(
    path: &str,
    symbols: &ModuleSymbols,
    load_bias: u64,
    content: &[u8],
    debug_file: Option<&[u8]>,
    r: Option<Result<ModuleDebugInfo, DebugInfoError>>,
    plain: Result<ModuleDebugInfo, DebugInfoError>,
)
    requires
        call_ensures(
            ModuleDebugInfo::try_from_symbols,
            (path, symbols, load_bias, content, debug_file),
            r,
        ),
        call_ensures(
            ModuleDebugInfo::from_symbols,
            (path, symbols, load_bias, content, debug_file),
            plain,
        ),
    ensures
        (forall|i: int|
            0 <= i < symbols.deep_view().len() ==> (#[trigger] symbols.deep_view()[i]).addr
                < u64::MAX && symbols.deep_view()[i].addr + symbols.deep_view()[i].size
                <= u64::MAX) ==> r is Some,
        r matches Some(x) ==> (x is Ok <==> plain is Ok),
        (r, plain) matches (Some(Ok(x)), Ok(y)) ==> x.debug_infos.deep_view()
            == y.debug_infos.deep_view() && x.object_path@ == y.object_path@ && x.load_bias
            == y.load_bias,
{
    let s = symbols.deep_view();
    if forall|i: int|
        0 <= i < s.len() ==> (#[trigger] s[i]).addr < u64::MAX && s[i].addr + s[i].size
            <= u64::MAX {
        if let Some(bytes) = dwarf_source(content@, crate::elf::bytes_of(debug_file)) {
            if let Ok(frames) = source_frames(bytes, s) {
                let infos = located(s, frames);
                lemma_located(s, frames);
                assert forall|k: int| 0 <= k < infos.len() implies (#[trigger] infos[k]).addr
                    + infos[k].size <= u64::MAX by {
                    assert(is_located(s, frames, infos[k]));
                    let i = choose|i: int|
                        0 <= i < s.len() && is_place_of(#[trigger] s[i], frames[i], infos[k]);
                    assert(s[i].addr + s[i].size <= u64::MAX);
                }
            }
        }
    }
}

} // verus!
