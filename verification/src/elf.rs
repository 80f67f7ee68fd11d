//! What is read from object files.
//!
//! Files are given by their bytes. What the `object` crate finds in them is named, so that the
//! functions that work on it can say what they do with it.
use object::{Object, ObjectSection, ObjectSymbol};
use vstd::prelude::*;

verus! {

/// A row of a symbol table.
#[derive(Debug)]
pub struct SymbolRow {
    pub address: u64,
    pub size: u64,
    /// The name, where it can be read.
    pub name: Option<String>,
    /// Whether the symbol is defined in the file.
    pub is_definition: bool,
    /// The index of the section it belongs to.
    pub section: Option<usize>,
}

pub struct SymbolRowView {
    pub address: u64,
    pub size: u64,
    pub name: Option<Seq<char>>,
    pub is_definition: bool,
    pub section: Option<usize>,
}

impl DeepView for SymbolRow {
    type V = SymbolRowView;

    open spec fn deep_view(&self) -> SymbolRowView {
        SymbolRowView {
            address: self.address,
            size: self.size,
            name: self.name.deep_view(),
            is_definition: self.is_definition,
            section: self.section,
        }
    }
}

/// A section, with its contents where they can be read.
#[derive(Debug)]
pub struct Section {
    pub address: u64,
    pub size: u64,
    pub data: Option<Vec<u8>>,
}

pub struct SectionView {
    pub address: u64,
    pub size: u64,
    pub data: Option<Seq<u8>>,
}

impl DeepView for Section {
    type V = SectionView;

    open spec fn deep_view(&self) -> SectionView {
        SectionView { address: self.address, size: self.size, data: self.data.deep_view() }
    }
}

/// Where a section lies in memory and, where it has bytes there, in the file.
#[derive(Debug, Clone, Copy)]
pub struct SectionPlace {
    pub address: u64,
    pub file_offset: Option<u64>,
}

/// The contents of a file that may be missing.
pub open spec fn bytes_of(content: Option<&[u8]>) -> Option<Seq<u8>> {
    match content {
        Some(bytes) => Some(bytes@),
        None => None,
    }
}

/// The message with which bytes are refused as an object file.
pub uninterp spec fn object_error(bytes: Seq<u8>) -> Option<Seq<char>>;

/// The rows of the symbol table.
pub uninterp spec fn symbol_rows(bytes: Seq<u8>) -> Seq<SymbolRowView>;

/// The rows of the dynamic symbol table.
pub uninterp spec fn dynamic_symbol_rows(bytes: Seq<u8>) -> Seq<SymbolRowView>;

/// The build ID.
pub uninterp spec fn build_id_of(bytes: Seq<u8>) -> Option<Seq<u8>>;

/// The file name and checksum of the separate debug file.
pub uninterp spec fn debuglink_of(bytes: Seq<u8>) -> Option<(Seq<u8>, u32)>;

/// The section with a name.
pub uninterp spec fn section_named(bytes: Seq<u8>, name: Seq<char>) -> Option<SectionView>;

/// The contents of the section with a name, decompressed.
pub uninterp spec fn uncompressed_section(bytes: Seq<u8>, name: Seq<char>) -> Option<Seq<u8>>;

/// The place of the section with an index.
pub uninterp spec fn section_place(bytes: Seq<u8>, index: usize) -> Option<SectionPlace>;

/// Whether numbers are stored with the least significant byte first.
pub uninterp spec fn little_endian(bytes: Seq<u8>) -> bool;

/// `object::File::parse`: the message of its error, if it refuses the bytes.
#[verifier::external_body]
pub(crate) fn check_object(bytes: &[u8]) -> (r: Option<String>)
    ensures
        r.deep_view() == object_error(bytes@),
{
    object::File::parse(bytes).err().map(|e| e.to_string())
}

/// `object::Object::symbols`: the address, size, name, `is_definition` and section index of each
/// symbol, in order. There are none where the bytes are no object file.
#[verifier::external_body]
pub(crate) fn symbols(bytes: &[u8]) -> (r: Vec<SymbolRow>)
    ensures
        r.deep_view() == symbol_rows(bytes@),
{
    let Ok(file) = object::File::parse(bytes) else {
        return Vec::new();
    };
    file.symbols().map(|s| SymbolRow {
        address: s.address(),
        size: s.size(),
        name: s.name().ok().map(str::to_owned),
        is_definition: s.is_definition(),
        section: s.section_index().map(|i| i.0),
    }).collect()
}

/// `object::Object::dynamic_symbols`: the address, size, name, `is_definition` and section index
/// of each dynamic symbol, in order. There are none where the bytes are no object file.
#[verifier::external_body]
pub(crate) fn dynamic_symbols(bytes: &[u8]) -> (r: Vec<SymbolRow>)
    ensures
        r.deep_view() == dynamic_symbol_rows(bytes@),
{
    let Ok(file) = object::File::parse(bytes) else {
        return Vec::new();
    };
    file.dynamic_symbols().map(|s| SymbolRow {
        address: s.address(),
        size: s.size(),
        name: s.name().ok().map(str::to_owned),
        is_definition: s.is_definition(),
        section: s.section_index().map(|i| i.0),
    }).collect()
}

/// `object::Object::build_id`: the build ID, where there is one that can be read.
#[verifier::external_body]
pub(crate) fn build_id(bytes: &[u8]) -> (r: Option<Vec<u8>>)
    ensures
        r.deep_view() == build_id_of(bytes@),
{
    let file = object::File::parse(bytes).ok()?;
    file.build_id().ok().flatten().map(<[u8]>::to_vec)
}

/// `object::Object::gnu_debuglink`: the name and the checksum, where there are some that can be
/// read.
#[verifier::external_body]
pub(crate) fn gnu_debuglink(bytes: &[u8]) -> (r: Option<(Vec<u8>, u32)>)
    ensures
        r.deep_view() == debuglink_of(bytes@),
{
    let file = object::File::parse(bytes).ok()?;
    file.gnu_debuglink().ok().flatten().map(|(name, crc)| (name.to_vec(), crc))
}

/// `object::Object::section_by_name`: the address, size and data of the section.
#[verifier::external_body]
pub(crate) fn section_by_name(bytes: &[u8], name: &str) -> (r: Option<Section>)
    ensures
        r.deep_view() == section_named(bytes@, name@),
{
    let file = object::File::parse(bytes).ok()?;
    let section = file.section_by_name(name)?;
    Some(Section {
        address: section.address(),
        size: section.size(),
        data: section.data().ok().map(<[u8]>::to_vec),
    })
}

/// `object::ObjectSection::uncompressed_data`: the data of the section with that name, where there
/// is one and it can be decompressed.
#[verifier::external_body]
pub(crate) fn uncompressed_data(bytes: &[u8], name: &str) -> (r: Option<Vec<u8>>)
    ensures
        r.deep_view() == uncompressed_section(bytes@, name@),
{
    let file = object::File::parse(bytes).ok()?;
    let data = file.section_by_name(name)?.uncompressed_data().ok()?;
    Some(data.into_owned())
}

/// `object::Object::section_by_index`: the address and the start of the file range of the section.
#[verifier::external_body]
pub(crate) fn section_by_index(bytes: &[u8], index: usize) -> (r: Option<SectionPlace>)
    ensures
        r == section_place(bytes@, index),
{
    let file = object::File::parse(bytes).ok()?;
    let section = file.section_by_index(object::SectionIndex(index)).ok()?;
    Some(SectionPlace {
        address: section.address(),
        file_offset: section.file_range().map(|range| range.0),
    })
}

/// `object::Object::is_little_endian`; `false` where the bytes are no object file.
#[verifier::external_body]
pub(crate) fn is_little_endian(bytes: &[u8]) -> (r: bool)
    ensures
        r == little_endian(bytes@),
{
    object::File::parse(bytes).map(|file| file.is_little_endian()).unwrap_or(false)
}

} // verus!
