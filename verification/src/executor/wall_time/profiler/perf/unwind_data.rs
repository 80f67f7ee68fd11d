//! The unwind tables of object files.
use std::ops::Range;

use vstd::prelude::*;

use crate::bytes::{bytes_eq, from_utf8_lossy, quote};
use crate::elf::{build_id, check_object, section_by_name, Section, SectionView};
use crate::runner_shared::unwind_data::{ProcessUnwindData, UnwindData, UnwindDataView};

verus! {

/// Where an object file asks to be loaded, and where it was.
#[derive(Debug, Clone, Copy)]
pub struct LoadAddresses {
    pub base_svma: u64,
    pub base_avma: u64,
}

/// Why a file gives no unwind data.
#[derive(Debug, PartialEq, Eq)]
pub enum UnwindError {
    /// The file at this path cannot be opened.
    Open(String),
    /// The file is no object file.
    Object(String),
    /// The file has another build ID than it should.
    BuildIdMismatch { path: String, found: String, expected: String },
    /// The file has no build ID.
    NoBuildId(String),
    /// The file has no `.eh_frame` data.
    NoEhFrame,
}

impl UnwindError {
    /// The text of the error.
    pub open spec fn text(self) -> Seq<char> {
        match self {
            UnwindError::Open(path) => "Could not open file "@ + path@,
            UnwindError::Object(message) => message@,
            UnwindError::BuildIdMismatch { path, found, expected } => "File "@ + crate::bytes::quoted(
                path@,
            ) + " has non-matching build ID "@ + found@ + " (expected "@ + expected@ + ")"@,
            UnwindError::NoBuildId(path) => "File "@ + crate::bytes::quoted(path@)
                + " does not contain a build ID, but we expected it to have one"@,
            UnwindError::NoEhFrame => "Failed to find eh_frame data"@,
        }
    }

    /// The text of the error.
    pub fn message(&self) -> (r: String)
        ensures
            r@ == self.text(),
    {
        match self {
            UnwindError::Open(path) => {
                let mut text = "Could not open file ".to_owned();
                text.append(path.as_str());
                text
            },
            UnwindError::Object(message) => message.clone(),
            UnwindError::BuildIdMismatch { path, found, expected } => {
                let mut text = "File ".to_owned();
                text.append(quote(path.as_str()).as_str());
                text.append(" has non-matching build ID ");
                text.append(found.as_str());
                text.append(" (expected ");
                text.append(expected.as_str());
                text.append(")");
                text
            },
            UnwindError::NoBuildId(path) => {
                let mut text = "File ".to_owned();
                text.append(quote(path.as_str()).as_str());
                text.append(" does not contain a build ID, but we expected it to have one");
                text
            },
            UnwindError::NoEhFrame => "Failed to find eh_frame data".to_owned(),
        }
    }
}

/// The contents of a section, if it is there and they can be read.
pub open spec fn data_of(section: Option<SectionView>) -> Option<Seq<u8>> {
    match section {
        Some(s) => s.data,
        None => None,
    }
}

/// Whether a section, if it is there, ends before the last address.
pub open spec fn end_fits(section: Option<SectionView>) -> bool {
    section matches Some(s) ==> s.address + s.size <= u64::MAX
}

/// The addresses that a section takes.
pub open spec fn svma_range_of(section: SectionView) -> Range<u64> {
    Range { start: section.address, end: (section.address + section.size) as u64 }
}

/// Whether the ranges of the sections that are used can be told.
pub open spec fn sections_fit(
    eh_frame: Option<SectionView>,
    eh_frame_hdr: Option<SectionView>,
) -> bool {
    &&& end_fits(eh_frame_hdr)
    &&& data_of(eh_frame) is Some ==> end_fits(eh_frame)
}

/// The unwind data that is taken from the two sections of the file at `path`.
pub open spec fn from_sections(
    path: Seq<char>,
    runtime: Range<u64>,
    addresses: LoadAddresses,
    eh_frame: Option<SectionView>,
    eh_frame_hdr: Option<SectionView>,
    r: Result<(UnwindData, ProcessUnwindData), UnwindError>,
) -> bool {
    match data_of(eh_frame) {
        Some(data) => {
            &&& r matches Ok(both)
            &&& both.0.deep_view() == (UnwindDataView {
                path,
                base_svma: addresses.base_svma,
                eh_frame_hdr: data_of(eh_frame_hdr),
                eh_frame_hdr_svma: match eh_frame_hdr {
                    Some(s) => Some(svma_range_of(s)),
                    None => None,
                },
                eh_frame: data,
                eh_frame_svma: svma_range_of(eh_frame->0),
            })
            &&& both.1 == (ProcessUnwindData {
                timestamp: None,
                avma_range: runtime,
                base_avma: addresses.base_avma,
            })
        },
        None => r matches Err(e) && e is NoEhFrame,
    }
}

/// Whether the build ID that a file should have, if any, is another than the one it has.
pub open spec fn build_id_refused(expected: Option<Seq<u8>>, found: Option<Seq<u8>>) -> bool {
    expected is Some && found != expected
}

/// What `unwind_data_from_elf` returns.
pub open spec fn unwind_result(
    path: Seq<char>,
    content: Option<Seq<u8>>,
    runtime: Range<u64>,
    expected: Option<Seq<u8>>,
    addresses: LoadAddresses,
    r: Result<(UnwindData, ProcessUnwindData), UnwindError>,
) -> bool {
    match content {
        None => r matches Err(UnwindError::Open(p)) && p@ == path,
        Some(bytes) => match crate::elf::object_error(bytes) {
            Some(message) => r matches Err(UnwindError::Object(m)) && m@ == message,
            None => if build_id_refused(expected, crate::elf::build_id_of(bytes)) {
                match crate::elf::build_id_of(bytes) {
                    Some(found) => r matches Err(
                        UnwindError::BuildIdMismatch { path: p, found: f, expected: e },
                    ) && p@ == path && f@ == crate::numeral::bytes_hex(found)
                        && e@ == crate::numeral::bytes_hex(expected->0),
                    None => r matches Err(UnwindError::NoBuildId(p)) && p@ == path,
                }
            } else {
                from_sections(
                    path,
                    runtime,
                    addresses,
                    crate::elf::section_named(bytes, ".eh_frame"@),
                    crate::elf::section_named(bytes, ".eh_frame_hdr"@),
                    r,
                )
            },
        },
    }
}

/// Whether the file gives unwind data, or an error, without a section that ends beyond the last
/// address.
pub open spec fn content_fits(content: Option<Seq<u8>>, expected: Option<Seq<u8>>) -> bool {
    content matches Some(bytes) ==> crate::elf::object_error(bytes) is None && !build_id_refused(
        expected,
        crate::elf::build_id_of(bytes),
    ) ==> sections_fit(
        crate::elf::section_named(bytes, ".eh_frame"@),
        crate::elf::section_named(bytes, ".eh_frame_hdr"@),
    )
}

/// `debugid::CodeId::from_binary`: the bytes of an identifier in hexadecimal.
#[verifier::external_body]
fn code_id(bytes: &[u8]) -> (r: String)
    ensures
        r@ == crate::numeral::bytes_hex(bytes@),
{
    debugid::CodeId::from_binary(bytes).to_string()
}

fn svma_range(section: &Section) -> (r: Range<u64>)
    requires
        section.address + section.size <= u64::MAX,
    ensures
        r == svma_range_of(section.deep_view()),
{
    Range { start: section.address, end: section.address + section.size }
}

/// The unwind data of the file at `path`, from its `.eh_frame` and `.eh_frame_hdr` sections.
///
/// The second is an index into the first that some files lack.
pub fn unwind_data_from_sections(
    path: String,
    runtime: Range<u64>,
    addresses: LoadAddresses,
    eh_frame: Option<Section>,
    eh_frame_hdr: Option<Section>,
) -> (r: Result<(UnwindData, ProcessUnwindData), UnwindError>)
    requires
        sections_fit(eh_frame.deep_view(), eh_frame_hdr.deep_view()),
    ensures
        from_sections(
            path@,
            runtime,
            addresses,
            eh_frame.deep_view(),
            eh_frame_hdr.deep_view(),
            r,
        ),
{
    let ghost hdr = eh_frame_hdr.deep_view();
    let (hdr_svma, hdr_data) = match eh_frame_hdr {
        Some(section) => {
            let range = svma_range(&section);
            (Some(range), section.data)
        },
        None => (None, None),
    };
    assert(hdr_data.deep_view() == data_of(hdr));
    let Some(section) = eh_frame else {
        return Err(UnwindError::NoEhFrame);
    };
    let ghost view = section.deep_view();
    let address: u64 = section.address;
    let size: u64 = section.size;
    let Some(data) = section.data else {
        return Err(UnwindError::NoEhFrame);
    };
    let unwind_data = UnwindData {
        path,
        base_svma: addresses.base_svma,
        eh_frame_hdr: hdr_data,
        eh_frame_hdr_svma: hdr_svma,
        eh_frame: data,
        eh_frame_svma: Range { start: address, end: address + size },
    };
    let mapping = ProcessUnwindData {
        timestamp: None,
        avma_range: runtime,
        base_avma: addresses.base_avma,
    };
    Ok((unwind_data, mapping))
}

/// The error for a file whose build ID is not the expected one.
fn check_build_id(path: &String, content: &[u8], expected: Option<&[u8]>) -> (r: Option<UnwindError>)
    ensures
        match r {
            Some(UnwindError::BuildIdMismatch { path: p, found: f, expected: e }) => {
                &&& build_id_refused(
                    crate::elf::bytes_of(expected),
                    crate::elf::build_id_of(content@),
                )
                &&& crate::elf::build_id_of(content@) is Some
                &&& p@ == path@
                &&& f@ == crate::numeral::bytes_hex(crate::elf::build_id_of(content@)->0)
                &&& e@ == crate::numeral::bytes_hex(crate::elf::bytes_of(expected)->0)
            },
            Some(UnwindError::NoBuildId(p)) => {
                &&& build_id_refused(
                    crate::elf::bytes_of(expected),
                    crate::elf::build_id_of(content@),
                )
                &&& crate::elf::build_id_of(content@) is None
                &&& p@ == path@
            },
            Some(_) => false,
            None => !build_id_refused(
                crate::elf::bytes_of(expected),
                crate::elf::build_id_of(content@),
            ),
        },
{
    let Some(wanted) = expected else {
        return None;
    };
    match build_id(content) {
        Some(found) => {
            assert(found.deep_view() =~= found@);
            if bytes_eq(wanted, found.as_slice()) {
                None
            } else {
                Some(
                    UnwindError::BuildIdMismatch {
                        path: path.clone(),
                        found: code_id(found.as_slice()),
                        expected: code_id(wanted),
                    },
                )
            }
        },
        None => Some(UnwindError::NoBuildId(path.clone())),
    }
}

/// The unwind data of the file `content` at the path `path_slice`, which a process has mapped from
/// `runtime_start_addr` to `runtime_end_addr`.
///
/// `content` is `None` where the file cannot be opened.
pub fn unwind_data_from_elf(
    path_slice: &[u8],
    content: Option<&[u8]>,
    runtime_start_addr: u64,
    runtime_end_addr: u64,
    build_id: Option<&[u8]>,
    addresses: LoadAddresses,
) -> (r: Result<(UnwindData, ProcessUnwindData), UnwindError>)
    requires
        content_fits(crate::elf::bytes_of(content), crate::elf::bytes_of(build_id)),
    ensures
        unwind_result(
            crate::bytes::lossy_text(path_slice@),
            crate::elf::bytes_of(content),
            Range { start: runtime_start_addr, end: runtime_end_addr },
            crate::elf::bytes_of(build_id),
            addresses,
            r,
        ),
{
    let path = from_utf8_lossy(path_slice);
    let Some(bytes) = content else {
        return Err(UnwindError::Open(path));
    };
    match check_object(bytes) {
        Some(message) => {
            return Err(UnwindError::Object(message));
        },
        None => {},
    }
    match check_build_id(&path, bytes, build_id) {
        Some(error) => {
            return Err(error);
        },
        None => {},
    }
    let eh_frame = section_by_name(bytes, ".eh_frame");
    let eh_frame_hdr = section_by_name(bytes, ".eh_frame_hdr");
    unwind_data_from_sections(
        path,
        Range { start: runtime_start_addr, end: runtime_end_addr },
        addresses,
        eh_frame,
        eh_frame_hdr,
    )
}

/// The unwind data of a file, or `None` where one of its sections would end beyond the last
/// address.
pub fn try_unwind_data_from_elf(
    path_slice: &[u8],
    content: Option<&[u8]>,
    runtime_start_addr: u64,
    runtime_end_addr: u64,
    build_id: Option<&[u8]>,
    addresses: LoadAddresses,
) -> (r: Option<Result<(UnwindData, ProcessUnwindData), UnwindError>>)
    ensures
        match r {
            Some(data) => unwind_result(
                crate::bytes::lossy_text(path_slice@),
                crate::elf::bytes_of(content),
                Range { start: runtime_start_addr, end: runtime_end_addr },
                crate::elf::bytes_of(build_id),
                addresses,
                data,
            ),
            None => !content_fits(crate::elf::bytes_of(content), crate::elf::bytes_of(build_id)),
        },
{
    if let Some(bytes) = content {
        let path = from_utf8_lossy(path_slice);
        if check_object(bytes).is_none() && check_build_id(&path, bytes, build_id).is_none() {
            let eh_frame = section_by_name(bytes, ".eh_frame");
            let eh_frame_hdr = section_by_name(bytes, ".eh_frame_hdr");
            if let Some(section) = eh_frame_hdr {
                if section.size > u64::MAX - section.address {
                    return None;
                }
            }
            if let Some(section) = eh_frame {
                if section.data.is_some() && section.size > u64::MAX - section.address {
                    return None;
                }
            }
        }
    }
    Some(
        unwind_data_from_elf(
            path_slice,
            content,
            runtime_start_addr,
            runtime_end_addr,
            build_id,
            addresses,
        ),
    )
}

/// The unwind data of an object file is that of its `.eh_frame` section, with the index of its
/// `.eh_frame_hdr` section where it has one. The addresses of the sections are those in the file, and
/// those of the process are where it was mapped.
pub proof fn law_unwind_data_is_that_of_the_sections(
    path: &[u8],
    content: &[u8],
    start: u64,
    end: u64,
    addresses: LoadAddresses,
    r: Result<(UnwindData, ProcessUnwindData), UnwindError>,
)
    requires
        crate::elf::section_named(content@, ".eh_frame"@) matches Some(s) ==> s.address + s.size
            <= u64::MAX,
        crate::elf::section_named(content@, ".eh_frame_hdr"@) matches Some(s) ==> s.address
            + s.size <= u64::MAX,
        call_ensures(unwind_data_from_elf, (path, Some(content), start, end, None, addresses), r),
        crate::elf::object_error(content@) is None,
    ensures
        r is Ok <==> (crate::elf::section_named(content@, ".eh_frame"@) matches Some(s)
            && s.data is Some),
        r is Err ==> r->Err_0 is NoEhFrame,
        r matches Ok((data, process)) ==> {
            &&& crate::elf::section_named(content@, ".eh_frame"@) matches Some(s)
            &&& data.path@ == crate::bytes::lossy_text(path@)
            &&& data.base_svma == addresses.base_svma
            &&& s.data == Some(data.eh_frame.deep_view())
            &&& data.eh_frame_svma.start == s.address
            &&& data.eh_frame_svma.end == s.address + s.size
            &&& process.avma_range.start == start
            &&& process.avma_range.end == end
            &&& process.base_avma == addresses.base_avma
            &&& process.timestamp is None
        },
        r matches Ok((data, process)) ==> match crate::elf::section_named(
            content@,
            ".eh_frame_hdr"@,
        ) {
            Some(h) => {
                &&& data.eh_frame_hdr.deep_view() == h.data
                &&& data.eh_frame_hdr_svma matches Some(range)
                &&& range.start == h.address
                &&& range.end == h.address + h.size
            },
            None => data.eh_frame_hdr is None && data.eh_frame_hdr_svma is None,
        },
{
}

/// A build ID that is asked for must be that of the file: another one and a missing one are
/// refused, and the one of the file changes nothing.
pub proof fn law_build_id_must_be_that_of_the_file(
    path: &[u8],
    content: &[u8],
    start: u64,
    end: u64,
    expected: &[u8],
    addresses: LoadAddresses,
    r: Result<(UnwindData, ProcessUnwindData), UnwindError>,
)
    requires
        call_ensures(
            unwind_data_from_elf,
            (path, Some(content), start, end, Some(expected), addresses),
            r,
        ),
        crate::elf::object_error(content@) is None,
    ensures
        r matches Err(UnwindError::NoBuildId(p)) ==> p@ == crate::bytes::lossy_text(path@),
        r matches Err(UnwindError::BuildIdMismatch { path: p, found: f, expected: e }) ==> {
            &&& p@ == crate::bytes::lossy_text(path@)
            &&& f@ == crate::numeral::bytes_hex(crate::elf::build_id_of(content@)->0)
            &&& e@ == crate::numeral::bytes_hex(expected@)
        },
        (r matches Err(e) && e is NoBuildId) <==> crate::elf::build_id_of(content@) is None,
        (r matches Err(e) && e is BuildIdMismatch) <==> (crate::elf::build_id_of(
            content@,
        ) matches Some(found) && found != expected@),
        r is Ok ==> crate::elf::build_id_of(content@) == Some(expected@),
        crate::elf::build_id_of(content@) == Some(expected@) ==> (r is Ok
            <==> (crate::elf::section_named(content@, ".eh_frame"@) matches Some(s)
            && s.data is Some)),
{
}

/// A file that cannot be opened and one that is no object file are told apart, whatever build ID is
/// asked for.
pub proof fn law_unusable_files_give_no_unwind_data(
    path: &[u8],
    content: Option<&[u8]>,
    start: u64,
    end: u64,
    expected: Option<&[u8]>,
    addresses: LoadAddresses,
    r: Result<(UnwindData, ProcessUnwindData), UnwindError>,
)
    requires
        call_ensures(unwind_data_from_elf, (path, content, start, end, expected, addresses), r),
    ensures
        content is None <==> (r matches Err(e) && e is Open),
        r matches Err(UnwindError::Open(p)) ==> p@ == crate::bytes::lossy_text(path@),
        content matches Some(bytes) ==> (crate::elf::object_error(bytes@) is Some <==> (
        r matches Err(e) && e is Object)),
        (content, r) matches (Some(bytes), Err(UnwindError::Object(m))) ==> Some(m@)
            == crate::elf::object_error(bytes@),
{
}

/// Where the sections end before the last address there is a result, and it is that of
/// [`unwind_data_from_elf`].
pub proof fn law_trying_gives_the_unwind_data(
    path: &[u8],
    content: Option<&[u8]>,
    start: u64,
    end: u64,
    expected: Option<&[u8]>,
    addresses: LoadAddresses,
    r: Option<Result<(UnwindData, ProcessUnwindData), UnwindError>>,
    plain: Result<(UnwindData, ProcessUnwindData), UnwindError>,
)
    requires
        call_ensures(
            try_unwind_data_from_elf,
            (path, content, start, end, expected, addresses),
            r,
        ),
        call_ensures(
            unwind_data_from_elf,
            (path, content, start, end, expected, addresses),
            plain,
        ),
    ensures
        r matches Some(x) ==> (x is Ok <==> plain is Ok),
        (r, plain) matches (Some(Ok(x)), Ok(y)) ==> x.0.deep_view() == y.0.deep_view() && x.1
            == y.1,
        content matches Some(bytes) ==> ((crate::elf::section_named(
            bytes@,
            ".eh_frame"@,
        ) matches Some(s) ==> s.address + s.size <= u64::MAX) && (crate::elf::section_named(
            bytes@,
            ".eh_frame_hdr"@,
        ) matches Some(s) ==> s.address + s.size <= u64::MAX) ==> r is Some),
        content is None ==> r is Some,
{
}

} // verus!
