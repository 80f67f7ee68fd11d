//! How memory tracking programs are loaded into the kernel, and what they are attached to.
use std::collections::HashMap;

use vstd::prelude::*;

use crate::elf::{
    check_object, dynamic_symbols, section_by_index, symbols, SectionPlace, SymbolRow,
    SymbolRowView,
};
use crate::memtrack::bpf_token::has_delegated_bpf_token;
use crate::memtrack::kernel::KernelVersion;
use crate::sort::{sort, Ranked};
use crate::text::str_eq;
use crate::text_map::text_at_most;

pub mod rmap;

use rmap::RmapSupport;

verus! {

// ---------------------------------------------------------------------------------------------
// Symbols
// ---------------------------------------------------------------------------------------------

/// A symbol and its offset in the file.
#[derive(Debug)]
pub struct SymbolOffset {
    pub name: String,
    pub offset: usize,
}

impl DeepView for SymbolOffset {
    type V = (Seq<char>, usize);

    open spec fn deep_view(&self) -> (Seq<char>, usize) {
        (self.name@, self.offset)
    }
}

/// Symbols are ordered by their names.
impl Ranked for SymbolOffset {
    open spec fn ranked(a: (Seq<char>, usize), b: (Seq<char>, usize)) -> bool {
        crate::text_map::text_le(a.0, b.0)
    }

    proof fn ranked_is_total(a: (Seq<char>, usize), b: (Seq<char>, usize)) {
        crate::text_map::lemma_text_le_total(a.0, b.0);
    }

    proof fn ranked_is_transitive(
        a: (Seq<char>, usize),
        b: (Seq<char>, usize),
        c: (Seq<char>, usize),
    ) {
        crate::text_map::lemma_text_le_transitive(a.0, b.0, c.0);
    }

    fn at_most(&self, other: &Self) -> (r: bool) {
        text_at_most(self.name.as_str(), other.name.as_str())
    }
}

/// The offset of `name`: the last that it was given.
pub open spec fn last_offset(list: Seq<(Seq<char>, usize)>, name: Seq<char>) -> Option<usize>
    decreases list.len(),
{
    if list.len() == 0 {
        None
    } else if list.last().0 == name {
        Some(list.last().1)
    } else {
        last_offset(list.drop_last(), name)
    }
}

/// The entries with the name of `x`.
pub open spec fn named_like(x: (Seq<char>, usize)) -> spec_fn((Seq<char>, usize)) -> bool {
    crate::sort::rank_of::<SymbolOffset>(x)
}

proof fn lemma_named_like(x: (Seq<char>, usize), y: (Seq<char>, usize))
    ensures
        named_like(x)(y) <==> x.0 == y.0,
{
    if named_like(x)(y) {
        crate::text_map::lemma_text_le_antisymmetric(x.0, y.0);
    }
    crate::text_map::lemma_text_le_total(x.0, x.0);
}

proof fn lemma_last_offset(list: Seq<(Seq<char>, usize)>, x: (Seq<char>, usize))
    ensures
        last_offset(list, x.0) == (if list.filter(named_like(x)).len() == 0 {
            None
        } else {
            Some(list.filter(named_like(x)).last().1)
        }),
    decreases list.len(),
{
    reveal(Seq::filter);
    if list.len() > 0 {
        lemma_last_offset(list.drop_last(), x);
        lemma_named_like(x, list.last());
    }
}

proof fn lemma_last_offset_at(list: Seq<(Seq<char>, usize)>, name: Seq<char>, k: int)
    requires
        -1 <= k < list.len(),
        0 <= k ==> list[k].0 == name,
        forall|j: int| k < j < list.len() ==> (#[trigger] list[j]).0 != name,
    ensures
        last_offset(list, name) == (if k < 0 {
            None
        } else {
            Some(list[k].1)
        }),
    decreases list.len(),
{
    if list.len() > 0 && k < list.len() - 1 {
        assert(list.last().0 != name);
        lemma_last_offset_at(list.drop_last(), name, k);
    }
}

/// Where probes can be attached in a library.
#[derive(Debug)]
pub struct ResolvedSymbols {
    sorted: Vec<SymbolOffset>,
}

impl ResolvedSymbols {
    closed spec fn wf(self) -> bool {
        crate::sort::in_order::<SymbolOffset>(self.sorted.deep_view())
    }

    /// The offset of a symbol.
    pub closed spec fn offset_of(self, symbol: Seq<char>) -> Option<usize> {
        last_offset(self.sorted.deep_view(), symbol)
    }

    #[verifier::type_invariant]
    spec fn inv(self) -> bool {
        self.wf()
    }

    /// The symbols of `list`, where a later entry replaces an earlier one of the same name.
    pub fn from_list(list: Vec<SymbolOffset>) -> (r: Self)
        ensures
            forall|symbol: Seq<char>| #[trigger]
                r.offset_of(symbol) == last_offset(list.deep_view(), symbol),
    {
        let ghost before = list.deep_view();
        let sorted = sort(list);
        let ghost after = sorted.deep_view();
        proof {
            assert forall|symbol: Seq<char>| #[trigger]
                last_offset(after, symbol) == last_offset(before, symbol) by {
                let x: (Seq<char>, usize) = (symbol, 0);
                lemma_last_offset(before, x);
                lemma_last_offset(after, x);
                assert(after.filter(named_like(x)) == before.filter(named_like(x)));
            }
        }
        ResolvedSymbols { sorted }
    }

    /// The offset of a symbol, if it was found.
    pub fn offset(&self, symbol: &str) -> (r: Option<usize>)
        ensures
            r == self.offset_of(symbol@),
    {
        proof {
            use_type_invariant(self);
        }
        let ghost s = self.sorted.deep_view();
        let mut low: usize = 0;
        let mut high: usize = self.sorted.len();
        while low < high
            invariant
                s == self.sorted.deep_view(),
                crate::sort::in_order::<SymbolOffset>(s),
                low <= high <= self.sorted@.len(),
                forall|j: int| 0 <= j < low ==> crate::text_map::text_le((#[trigger] s[j]).0, symbol@),
                forall|j: int|
                    high <= j < s.len() ==> !crate::text_map::text_le((#[trigger] s[j]).0, symbol@),
            decreases high - low,
        {
            let mid: usize = low + (high - low) / 2;
            assert(s[mid as int] == self.sorted@[mid as int].deep_view());
            if text_at_most(self.sorted[mid].name.as_str(), symbol) {
                assert forall|j: int| 0 <= j < mid + 1 implies crate::text_map::text_le(
                    (#[trigger] s[j]).0,
                    symbol@,
                ) by {
                    assert(SymbolOffset::ranked(s[j], s[mid as int]));
                    crate::text_map::lemma_text_le_transitive(s[j].0, s[mid as int].0, symbol@);
                }
                low = mid + 1;
            } else {
                assert forall|j: int| mid <= j < s.len() implies !crate::text_map::text_le(
                    (#[trigger] s[j]).0,
                    symbol@,
                ) by {
                    assert(SymbolOffset::ranked(s[mid as int], s[j]));
                    if crate::text_map::text_le(s[j].0, symbol@) {
                        crate::text_map::lemma_text_le_transitive(s[mid as int].0, s[j].0, symbol@);
                    }
                }
                high = mid;
            }
        }
        proof {
            crate::text_map::lemma_text_le_total(symbol@, symbol@);
        }
        if low > 0 && str_eq(self.sorted[low - 1].name.as_str(), symbol) {
            proof {
                assert(s[low - 1] == self.sorted@[low - 1].deep_view());
                lemma_last_offset_at(s, symbol@, low - 1);
            }
            return Some(self.sorted[low - 1].offset);
        }
        proof {
            assert forall|j: int| -1 < j < s.len() implies (#[trigger] s[j]).0 != symbol@ by {
                if j < low && s[j].0 == symbol@ {
                    assert(s[low - 1] == self.sorted@[low - 1].deep_view());
                    assert(SymbolOffset::ranked(s[j], s[low - 1]));
                    crate::text_map::lemma_text_le_antisymmetric(symbol@, s[low - 1].0);
                }
            }
            lemma_last_offset_at(s, symbol@, -1);
        }
        None
    }
}

/// A row of a symbol table and the place of its section.
pub type PlacedRow = (SymbolRow, Option<SectionPlace>);

/// The view of a [`PlacedRow`].
pub type PlacedRowView = (SymbolRowView, Option<SectionPlace>);

/// The views of rows with the places of their sections.
pub open spec fn placed_views(rows: Seq<PlacedRow>) -> Seq<PlacedRowView> {
    Seq::new(rows.len(), |i: int| (rows[i].0.deep_view(), rows[i].1))
}

/// Where a symbol is in the file, as far as that can be told from the place of its section: not
/// for a symbol without an address, nor for one in a section without bytes in the file.
pub open spec fn place_in_file(row: PlacedRowView) -> Option<int> {
    if row.0.address == 0 {
        None
    } else {
        match row.1 {
            Some(place) => match place.file_offset {
                Some(offset) => Some(row.0.address - place.address + offset),
                None => None,
            },
            None => None,
        }
    }
}

/// Whether a symbol does not lie before its section, nor beyond the greatest offset.
pub open spec fn place_fits(row: PlacedRowView) -> bool {
    place_in_file(row) is Some ==> row.0.address >= (row.1->0).address && place_in_file(row)->0
        <= u64::MAX
}

/// Whether a symbol is defined in the file and has a name.
pub open spec fn is_named_definition(row: PlacedRowView) -> bool {
    row.0.is_definition && row.0.name is Some
}

/// Whether the offsets of all symbols that are looked at can be told.
pub open spec fn places_fit(rows: Seq<PlacedRowView>) -> bool {
    forall|i: int|
        0 <= i < rows.len() && is_named_definition(#[trigger] rows[i]) ==> place_fits(rows[i])
}

/// The symbols that are defined in the file, with their offsets.
pub open spec fn defined_offsets(rows: Seq<PlacedRowView>) -> Seq<(Seq<char>, usize)>
    decreases rows.len(),
{
    if rows.len() == 0 {
        seq![]
    } else {
        let rest = defined_offsets(rows.drop_last());
        let row = rows.last();
        match (row.0.name, place_in_file(row)) {
            (Some(name), Some(offset)) => if row.0.is_definition {
                rest.push((name, offset as u64 as usize))
            } else {
                rest
            },
            _ => rest,
        }
    }
}

/// The offset of a symbol in the file, or `None` where it has no address in a section with bytes
/// in the file.
pub fn symbol_file_offset(row: &SymbolRow, place: Option<SectionPlace>) -> (r: Option<usize>)
    requires
        place_fits((row.deep_view(), place)),
    ensures
        match place_in_file((row.deep_view(), place)) {
            Some(offset) => r == Some(offset as u64 as usize),
            None => r is None,
        },
{
    if row.address == 0 {
        return None;
    }
    match place {
        Some(place) => match place.file_offset {
            Some(offset) => {
                let from_start: u64 = row.address - place.address;
                Some((from_start + offset) as usize)
            },
            None => None,
        },
        None => None,
    }
}

/// The symbols that are defined in a file with these rows.
pub fn resolve_rows(rows: &Vec<PlacedRow>) -> (r: ResolvedSymbols)
    requires
        places_fit(placed_views(rows@)),
    ensures
        forall|symbol: Seq<char>| #[trigger]
            r.offset_of(symbol) == last_offset(defined_offsets(placed_views(rows@)), symbol),
{
    let ghost all = placed_views(rows@);
    let mut list: Vec<SymbolOffset> = Vec::new();
    let mut i: usize = 0;
    assert(all.take(0) =~= seq![]);
    while i < rows.len()
        invariant
            all == placed_views(rows@),
            places_fit(all),
            i <= rows@.len(),
            list.deep_view() == defined_offsets(all.take(i as int)),
        decreases rows.len() - i,
    {
        let ghost before = list;
        assert(all.take(i + 1).drop_last() =~= all.take(i as int));
        assert(all[i as int] == (rows@[i as int].0.deep_view(), rows@[i as int].1));
        let row = &rows[i].0;
        if row.is_definition {
            if let Some(name) = &row.name {
                assert(is_named_definition(all[i as int]));
                if let Some(offset) = symbol_file_offset(row, rows[i].1) {
                    list.push(SymbolOffset { name: name.clone(), offset });
                    proof {
                        crate::list::lemma_deep_push(before, list@.last(), list);
                    }
                }
            }
        }
        i = i + 1;
    }
    assert(all.take(all.len() as int) =~= all);
    ResolvedSymbols::from_list(list)
}

/// The place of the section of a row.
pub open spec fn place_of(bytes: Seq<u8>, row: SymbolRowView) -> Option<SectionPlace> {
    match row.section {
        Some(index) => crate::elf::section_place(bytes, index),
        None => None,
    }
}

/// The rows of both symbol tables, with the places of their sections.
pub open spec fn placed_rows(bytes: Seq<u8>) -> Seq<PlacedRowView> {
    let rows = crate::elf::symbol_rows(bytes) + crate::elf::dynamic_symbol_rows(bytes);
    Seq::new(rows.len(), |i: int| (rows[i], place_of(bytes, rows[i])))
}

/// Reads both symbol tables, with the places of the sections.
fn read_placed_rows(bytes: &[u8]) -> (r: Vec<PlacedRow>)
    ensures
        placed_views(r@) == placed_rows(bytes@),
{
    broadcast use vstd::std_specs::hash::group_hash_axioms;

    let mut rows = symbols(bytes);
    let mut more = dynamic_symbols(bytes);
    let ghost a = rows.deep_view();
    let ghost b = more.deep_view();
    rows.append(&mut more);
    assert(rows.deep_view() =~= a + b);
    let ghost all = rows.deep_view();
    let mut places: HashMap<usize, Option<SectionPlace>> = HashMap::new();
    let mut out: Vec<PlacedRow> = Vec::new();
    for row in it: rows
        invariant
            all.len() == it.seq().len(),
            forall|i: int| 0 <= i < all.len() ==> all[i] == (#[trigger] it.seq()[i]).deep_view(),
            out@.len() == it.index(),
            forall|i: int|
                0 <= i < out@.len() ==> (#[trigger] out@[i]).0.deep_view() == all[i] && out@[i].1
                    == place_of(bytes@, all[i]),
            forall|index: usize| #[trigger]
                places@.contains_key(index) ==> places@[index] == crate::elf::section_place(
                    bytes@,
                    index,
                ),
    {
        broadcast use vstd::std_specs::hash::group_hash_axioms;

        assert(all[it.index()] == row.deep_view());
        let place: Option<SectionPlace> = match row.section {
            Some(index) => match places.get(&index) {
                Some(known) => *known,
                None => {
                    let found = section_by_index(bytes, index);
                    places.insert(index, found);
                    found
                },
            },
            None => None,
        };
        out.push((row, place));
    }
    assert(placed_views(out@) =~= placed_rows(bytes@));
    out
}

/// What `resolve_symbol_offsets` returns.
pub open spec fn resolved(bytes: Seq<u8>, r: Result<ResolvedSymbols, String>) -> bool {
    match crate::elf::object_error(bytes) {
        Some(message) => r matches Err(m) && m@ == message,
        None => {
            &&& r matches Ok(found)
            &&& forall|symbol: Seq<char>| #[trigger]
                found.offset_of(symbol) == last_offset(defined_offsets(placed_rows(bytes)), symbol)
        },
    }
}

/// Where probes can be attached in the library `content`: the offsets of all symbols that it
/// defines. The error is the message of the object reader.
pub fn resolve_symbol_offsets(content: &[u8]) -> (r: Result<ResolvedSymbols, String>)
    requires
        crate::elf::object_error(content@) is None ==> places_fit(placed_rows(content@)),
    ensures
        resolved(content@, r),
{
    match check_object(content) {
        Some(message) => Err(message),
        None => Ok(resolve_rows(&read_placed_rows(content))),
    }
}

/// Where probes can be attached in a library, or `None` where a symbol lies before its section or
/// beyond the greatest offset.
pub fn try_resolve_symbol_offsets(content: &[u8]) -> (r: Option<Result<ResolvedSymbols, String>>)
    ensures
        match r {
            Some(found) => resolved(content@, found),
            None => crate::elf::object_error(content@) is None && !places_fit(
                placed_rows(content@),
            ),
        },
{
    if check_object(content).is_none() {
        let rows = read_placed_rows(content);
        let ghost all = placed_views(rows@);
        let mut i: usize = 0;
        while i < rows.len()
            invariant
                crate::elf::object_error(content@) is None,
                all == placed_rows(content@),
                all == placed_views(rows@),
                i <= rows@.len(),
                forall|j: int|
                    0 <= j < i && is_named_definition(#[trigger] all[j]) ==> place_fits(all[j]),
            decreases rows.len() - i,
        {
            assert(all[i as int] == (rows@[i as int].0.deep_view(), rows@[i as int].1));
            let row = &rows[i].0;
            if row.is_definition && row.name.is_some() && row.address != 0 {
                if let Some(place) = rows[i].1 {
                    if let Some(offset) = place.file_offset {
                        if row.address < place.address || row.address - place.address > u64::MAX
                            - offset {
                            assert(is_named_definition(all[i as int]));
                            assert(!place_fits(all[i as int]));
                            return None;
                        }
                    }
                }
            }
            i = i + 1;
        }
    }
    Some(resolve_symbol_offsets(content))
}

/// Whether a row of a symbol table is the definition of `name`, at an address in a section with bytes
/// in the file, and lies at `offset` of the file.
pub open spec fn lies_at(bytes: Seq<u8>, row: SymbolRowView, name: Seq<char>, offset: int) -> bool {
    &&& row.is_definition
    &&& row.name == Some(name)
    &&& row.address != 0
    &&& row.section matches Some(index)
    &&& crate::elf::section_place(bytes, index) matches Some(place)
    &&& place.file_offset matches Some(start)
    &&& offset == row.address - place.address + start
}

/// Every symbol that either symbol table of a library defines in a section with bytes in the file can
/// be probed there: its offset is found, whichever of the tables it stands in. Where a name is
/// defined more than once, the last definition counts, those of the dynamic symbol table after
/// those of the other.
pub proof fn law_definitions_of_both_tables_are_found(
    content: &[u8],
    r: Result<ResolvedSymbols, String>,
    i: int,
    name: Seq<char>,
    offset: int,
)
    requires
        call_ensures(resolve_symbol_offsets, (content,), r),
        crate::elf::object_error(content@) is None,
        0 <= offset <= usize::MAX,
        ({
            let rows = crate::elf::symbol_rows(content@) + crate::elf::dynamic_symbol_rows(content@);
            &&& 0 <= i < rows.len()
            &&& lies_at(content@, rows[i], name, offset)
            &&& forall|j: int, other: int|
                #![trigger lies_at(content@, rows[j], name, other)]
                i < j < rows.len() ==> !lies_at(content@, rows[j], name, other)
        }),
    ensures
        r matches Ok(found) && found.offset_of(name) == Some(offset as usize),
{
    let rows = crate::elf::symbol_rows(content@) + crate::elf::dynamic_symbol_rows(content@);
    let placed = placed_rows(content@);
    assert(placed.len() == rows.len());
    assert(placed[i] == (rows[i], place_of(content@, rows[i])));
    assert forall|j: int| i < j < placed.len() implies !(placed[j].0.is_definition
        && placed[j].0.name == Some(name) && place_in_file(placed[j]) is Some) by {
        assert(placed[j] == (rows[j], place_of(content@, rows[j])));
        if placed[j].0.is_definition && placed[j].0.name == Some(name) && place_in_file(placed[j])
            is Some {
            assert(lies_at(content@, rows[j], name, place_in_file(placed[j])->0));
        }
    }
    lemma_defined_offsets(placed, name, i);
}

proof fn lemma_defined_offsets(rows: Seq<PlacedRowView>, name: Seq<char>, i: int)
    requires
        -1 <= i < rows.len(),
        0 <= i ==> rows[i].0.is_definition && rows[i].0.name == Some(name) && place_in_file(rows[i])
            is Some,
        forall|j: int|
            i < j < rows.len() ==> !((#[trigger] rows[j]).0.is_definition && rows[j].0.name == Some(
                name,
            ) && place_in_file(rows[j]) is Some),
    ensures
        last_offset(defined_offsets(rows), name) == (if i < 0 {
            None
        } else {
            Some(place_in_file(rows[i])->0 as u64 as usize)
        }),
    decreases rows.len(),
{
    if rows.len() > 0 {
        let rest = rows.drop_last();
        let before = defined_offsets(rest);
        let after = defined_offsets(rows);
        if i == rows.len() - 1 {
            assert(after.last() == (name, place_in_file(rows[i])->0 as u64 as usize));
        } else {
            assert(rows[rows.len() - 1] == rows.last());
            assert forall|j: int| i < j < rest.len() implies !((#[trigger] rest[j]).0.is_definition
                && rest[j].0.name == Some(name) && place_in_file(rest[j]) is Some) by {
                assert(rest[j] == rows[j]);
            }
            if i >= 0 {
                assert(rest[i] == rows[i]);
            }
            lemma_defined_offsets(rest, name, i);
            if after.len() > before.len() {
                assert(after.drop_last() =~= before);
            }
        }
    }
}

/// No symbol is found that neither symbol table defines in a section with bytes in the file.
pub proof fn law_only_definitions_are_found(
    content: &[u8],
    r: Result<ResolvedSymbols, String>,
    name: Seq<char>,
)
    requires
        call_ensures(resolve_symbol_offsets, (content,), r),
        crate::elf::object_error(content@) is None,
        ({
            let rows = crate::elf::symbol_rows(content@) + crate::elf::dynamic_symbol_rows(content@);
            forall|j: int, offset: int|
                #![trigger lies_at(content@, rows[j], name, offset)]
                0 <= j < rows.len() ==> !lies_at(content@, rows[j], name, offset)
        }),
    ensures
        r matches Ok(found) && found.offset_of(name) is None,
{
    let rows = crate::elf::symbol_rows(content@) + crate::elf::dynamic_symbol_rows(content@);
    let placed = placed_rows(content@);
    assert forall|j: int| -1 < j < placed.len() implies !((#[trigger] placed[j]).0.is_definition
        && placed[j].0.name == Some(name) && place_in_file(placed[j]) is Some) by {
        assert(placed[j] == (rows[j], place_of(content@, rows[j])));
        if placed[j].0.is_definition && placed[j].0.name == Some(name) && place_in_file(placed[j])
            is Some {
            assert(lies_at(content@, rows[j], name, place_in_file(placed[j])->0));
        }
    }
    lemma_defined_offsets(placed, name, -1);
}

/// Bytes that are no object file have no symbols: the error is the message of the object reader.
/// Only a definition that lies before its section or beyond the greatest offset is left untold.
pub proof fn law_resolution_fails_only_on_broken_files(
    content: &[u8],
    r: Option<Result<ResolvedSymbols, String>>,
)
    requires
        call_ensures(try_resolve_symbol_offsets, (content,), r),
    ensures
        crate::elf::object_error(content@) matches Some(message) ==> (r matches Some(Err(m)) && m@
            == message),
        crate::elf::object_error(content@) is None ==> !(r matches Some(Err(_))),
        r is None ==> exists|row: SymbolRowView, name: Seq<char>, offset: int|
            #![trigger lies_at(content@, row, name, offset)]
            (crate::elf::symbol_rows(content@) + crate::elf::dynamic_symbol_rows(content@)).contains(
                row,
            ) && lies_at(content@, row, name, offset),
{
    if r is None {
        let rows = crate::elf::symbol_rows(content@) + crate::elf::dynamic_symbol_rows(content@);
        let placed = placed_rows(content@);
        let i = choose|i: int|
            0 <= i < placed.len() && is_named_definition(#[trigger] placed[i]) && !place_fits(
                placed[i],
            );
        assert(placed[i] == (rows[i], place_of(content@, rows[i])));
        assert(rows.contains(rows[i]));
        assert(lies_at(content@, rows[i], rows[i].name->0, place_in_file(placed[i])->0));
    }
}

// ---------------------------------------------------------------------------------------------
// Probes
// ---------------------------------------------------------------------------------------------

/// A probe to be attached at an offset in a library.
#[derive(Debug)]
pub struct Uprobe {
    pub library: String,
    pub offset: usize,
    /// Whether it fires when the function returns.
    pub on_return: bool,
}

/// The probes for a function of a library, if the library defines it: one where it is entered and,
/// where asked for, one where it returns.
pub fn probes_if_found(
    library: &str,
    symbol: &str,
    symbols: &ResolvedSymbols,
    with_return: bool,
) -> (r: Option<Vec<Uprobe>>)
    ensures
        match symbols.offset_of(symbol@) {
            Some(offset) => {
                &&& r matches Some(probes)
                &&& probes@.len() == (if with_return {
                    2int
                } else {
                    1int
                })
                &&& forall|i: int|
                    0 <= i < probes@.len() ==> (#[trigger] probes@[i]).library@ == library@
                        && probes@[i].offset == offset && probes@[i].on_return == (i == 1)
            },
            None => r is None,
        },
{
    let Some(offset) = symbols.offset(symbol) else {
        return None;
    };
    let mut probes: Vec<Uprobe> = Vec::new();
    probes.push(Uprobe { library: library.to_owned(), offset, on_return: false });
    if with_return {
        probes.push(Uprobe { library: library.to_owned(), offset, on_return: true });
    }
    Some(probes)
}

// ---------------------------------------------------------------------------------------------
// Loading
// ---------------------------------------------------------------------------------------------

/// How the programs that are loaded attach their probes.
#[derive(Debug, Clone, Copy, PartialEq, Eq, Structural)]
pub enum BpfVariant {
    /// Through links that a BPF token can allow. Needs kernel 6.6.
    Token,
    /// Through performance events, for kernels without those links. Needs privileges on the host.
    Legacy,
}

/// How many times two divides `n`, up to `width` times.
pub open spec fn twos(n: nat, width: nat) -> nat
    decreases width,
{
    if width == 0 || n % 2 == 1 {
        0
    } else {
        1 + twos(n / 2, (width - 1) as nat)
    }
}

/// The number of bits in an offset within a page of memory. The page size is that which the system
/// reports; the error is for one that it does not.
pub fn page_shift(page_size: i64) -> (r: Result<u32, PageSizeError>)
    ensures
        match r {
            Ok(shift) => page_size > 0 && shift == twos((page_size as u32) as nat, 32),
            Err(_) => page_size <= 0,
        },
{
    if page_size <= 0 {
        return Err(PageSizeError);
    }
    let mut rest: u32 = page_size as u32;
    let ghost whole = rest as nat;
    let mut shift: u32 = 0;
    while shift < 32 && rest % 2 == 0
        invariant
            shift <= 32,
            twos(whole, 32) == shift + twos(rest as nat, (32 - shift) as nat),
        decreases 32 - shift,
    {
        rest = rest / 2;
        shift = shift + 1;
    }
    Ok(shift)
}

/// The size of a page cannot be read.
#[derive(Debug, Clone, Copy, PartialEq, Eq)]
pub struct PageSizeError;

impl PageSizeError {
    /// The text of the error.
    pub fn message(&self) -> (r: String)
        ensures
            r@ == "Failed to read system page size"@,
    {
        "Failed to read system page size".to_owned()
    }
}

/// A page of two to the power of `k` bytes has offsets of `k` bits.
pub proof fn law_page_shift_of_power(k: nat)
    requires
        k < 32,
    ensures
        twos(vstd::arithmetic::power2::pow2(k), 32) == k,
{
    lemma_twos_of_power(k, 32);
}

proof fn lemma_twos_of_power(k: nat, width: nat)
    requires
        k < width,
    ensures
        twos(vstd::arithmetic::power2::pow2(k), width) == k,
    decreases k,
{
    vstd::arithmetic::power2::lemma2_to64();
    if k > 0 {
        vstd::arithmetic::power2::lemma_pow2_unfold(k);
        lemma_twos_of_power((k - 1) as nat, (width - 1) as nat);
    }
}

/// The programs on the lower two levels of page tables.
pub open spec fn core_programs() -> Seq<Seq<char>> {
    seq![
        "fentry_folio_add_new_anon_rmap"@,
        "fentry_folio_add_anon_rmap_ptes"@,
        "fentry_folio_add_anon_rmap_pmd"@,
        "fentry_folio_add_file_rmap_ptes"@,
        "fentry_folio_add_file_rmap_pmd"@,
        "fentry_folio_remove_rmap_ptes"@,
        "fentry_folio_remove_rmap_pmd"@,
    ]
}

/// The programs on the third level of page tables.
pub open spec fn pud_programs() -> Seq<Seq<char>> {
    seq!["fentry_folio_add_file_rmap_pud"@, "fentry_folio_remove_rmap_pud"@]
}

/// The programs that are not loaded, as the kernel lacks what they would be attached to.
pub open spec fn disabled_programs(rmap: RmapSupport) -> Seq<Seq<char>> {
    match rmap {
        RmapSupport::Unsupported => core_programs() + pud_programs(),
        RmapSupport::Core => pud_programs(),
        RmapSupport::CoreAndPud => seq![],
    }
}

/// The programs that are not loaded.
pub fn programs_to_disable(rmap: RmapSupport) -> (r: Vec<String>)
    ensures
        r.deep_view() == disabled_programs(rmap),
{
    let mut out: Vec<String> = Vec::new();
    if let RmapSupport::Unsupported = rmap {
        out.push("fentry_folio_add_new_anon_rmap".to_owned());
        out.push("fentry_folio_add_anon_rmap_ptes".to_owned());
        out.push("fentry_folio_add_anon_rmap_pmd".to_owned());
        out.push("fentry_folio_add_file_rmap_ptes".to_owned());
        out.push("fentry_folio_add_file_rmap_pmd".to_owned());
        out.push("fentry_folio_remove_rmap_ptes".to_owned());
        out.push("fentry_folio_remove_rmap_pmd".to_owned());
    }
    match rmap {
        RmapSupport::Unsupported | RmapSupport::Core => {
            out.push("fentry_folio_add_file_rmap_pud".to_owned());
            out.push("fentry_folio_remove_rmap_pud".to_owned());
        },
        RmapSupport::CoreAndPud => {},
    }
    assert(out.deep_view() =~= disabled_programs(rmap));
    out
}

/// More support disables fewer programs: those of the better level are among those of the worse.
pub proof fn law_support_enables_programs(a: RmapSupport, b: RmapSupport, program: Seq<char>)
    requires
        a.level() <= b.level(),
        disabled_programs(b).contains(program),
    ensures
        disabled_programs(a).contains(program),
{
    let all = core_programs() + pud_programs();
    let i = choose|i: int| 0 <= i < disabled_programs(b).len() && disabled_programs(b)[i] == program;
    if a is Unsupported && b is Core {
        assert(all[7 + i] == program);
    }
}

/// What the system tells about itself before programs are loaded.
#[derive(Debug, Clone, Copy)]
pub struct HostFacts {
    /// The size of a page, or a value that is not positive where it cannot be read.
    pub page_size: i64,
    /// The release of the kernel, if it can be read.
    pub kernel: Option<KernelVersion>,
    /// The device and the inode of the namespace of process IDs, if they can be read. Without them
    /// the programs report the IDs of the host.
    pub pid_namespace: Option<(u64, u64)>,
}

/// How programs are to be loaded.
#[derive(Debug)]
pub struct LoadPlan {
    pub variant: BpfVariant,
    pub page_shift: u32,
    pub target_pidns: Option<(u64, u64)>,
    /// The programs that must not be loaded.
    pub disabled: Vec<String>,
    pub rmap: RmapSupport,
}

/// The support for hooks that is used: none where they were not asked for.
pub open spec fn used_support(track_rmap: bool, kernel: Option<KernelVersion>) -> RmapSupport {
    match (track_rmap, kernel) {
        (true, Some(version)) => rmap::support_of(version),
        _ => RmapSupport::Unsupported,
    }
}

/// The loaded programs and the links `L` by which they are attached.
#[derive(Debug)]
pub struct MemtrackBpf<L> {
    pub variant: BpfVariant,
    pub rmap: RmapSupport,
    pub probes: Vec<L>,
}

/// How many links one thread closes.
pub open spec fn chunk_size(links: nat) -> nat {
    (links + 31) / 32
}

/// The links in the groups in which they are closed, taken from the end.
pub open spec fn chunks<L>(links: Seq<L>, size: nat) -> Seq<Seq<L>>
    decreases links.len(),
{
    if links.len() == 0 || size == 0 {
        seq![]
    } else {
        let at = if links.len() > size {
            links.len() - size
        } else {
            0
        };
        seq![links.skip(at)] + chunks(links.take(at), size)
    }
}

impl<L> MemtrackBpf<L> {
    /// How to load the programs, in the variant for which there is a token.
    pub fn new_with_rmap(
        track_rmap: bool,
        token_path: Option<&str>,
        token_is_dir: bool,
        host: HostFacts,
    ) -> (r: Result<LoadPlan, PageSizeError>)
        ensures
            load_plan(
                if token_path matches Some(p) && p@.len() > 0 && token_is_dir {
                    BpfVariant::Token
                } else {
                    BpfVariant::Legacy
                },
                track_rmap,
                host,
                r,
            ),
    {
        let variant = if has_delegated_bpf_token(token_path, token_is_dir) {
            BpfVariant::Token
        } else {
            BpfVariant::Legacy
        };
        Self::with_variant(variant, track_rmap, host)
    }

    /// How to load the programs of a variant.
    ///
    /// Programs for hooks that the kernel lacks have to be left out, or none can be loaded.
    pub fn with_variant(variant: BpfVariant, track_rmap: bool, host: HostFacts) -> (r: Result<
        LoadPlan,
        PageSizeError,
    >)
        ensures
            load_plan(variant, track_rmap, host, r),
    {
        let shift = match page_shift(host.page_size) {
            Ok(shift) => shift,
            Err(error) => {
                return Err(error);
            },
        };
        let rmap = if track_rmap {
            RmapSupport::detect(host.kernel)
        } else {
            RmapSupport::Unsupported
        };
        Ok(
            LoadPlan {
                variant,
                page_shift: shift,
                target_pidns: host.pid_namespace,
                disabled: programs_to_disable(rmap),
                rmap,
            },
        )
    }

    /// The loaded programs, with nothing attached.
    pub fn loaded(plan: &LoadPlan) -> (r: Self)
        ensures
            r.variant == plan.variant,
            r.rmap == plan.rmap,
            r.probes@.len() == 0,
    {
        MemtrackBpf { variant: plan.variant, rmap: plan.rmap, probes: Vec::new() }
    }

    /// How many links there are.
    pub fn probe_count(&self) -> (r: usize)
        ensures
            r == self.probes@.len(),
    {
        self.probes.len()
    }

    /// Takes all links, in groups to be closed by one thread each.
    ///
    /// Closing a link waits for the kernel, but several threads wait together.
    pub fn detach_probes(&mut self) -> (r: Vec<Vec<L>>)
        ensures
            final(self).probes@.len() == 0,
            final(self).variant == old(self).variant,
            final(self).rmap == old(self).rmap,
            r@.len() == chunks(old(self).probes@, chunk_size(old(self).probes@.len())).len(),
            forall|i: int|
                0 <= i < r@.len() ==> (#[trigger] r@[i])@ == chunks(
                    old(self).probes@,
                    chunk_size(old(self).probes@.len()),
                )[i],
    {
        let mut probes: Vec<L> = Vec::new();
        std::mem::swap(&mut probes, &mut self.probes);
        let ghost all = probes@;
        let size: usize = if probes.len() % 32 == 0 {
            probes.len() / 32
        } else {
            probes.len() / 32 + 1
        };
        let mut out: Vec<Vec<L>> = Vec::new();
        let ghost whole = chunks(all, size as nat);
        while probes.len() > 0
            invariant
                size == chunk_size(all.len()),
                all.len() > 0 ==> size > 0,
                probes@.len() <= all.len(),
                whole == chunks(all, size as nat),
                whole.len() == out@.len() + chunks(probes@, size as nat).len(),
                whole.skip(out@.len() as int) == chunks(probes@, size as nat),
                forall|i: int| 0 <= i < out@.len() ==> (#[trigger] out@[i])@ == whole[i],
            decreases probes.len(),
        {
            let ghost before = probes@;
            let ghost rest = chunks(before, size as nat);
            let at: usize = if probes.len() > size {
                probes.len() - size
            } else {
                0
            };
            let chunk = probes.split_off(at);
            assert(chunk@ =~= before.skip(at as int));
            assert(probes@ =~= before.take(at as int));
            assert(rest[0] == chunk@);
            assert(whole[out@.len() as int] == whole.skip(out@.len() as int)[0]);
            assert(whole.skip(out@.len() as int + 1) =~= rest.skip(1));
            assert(rest.skip(1) =~= chunks(probes@, size as nat));
            out.push(chunk);
        }
        out
    }
}

/// How the programs of `variant` are loaded on a host.
pub open spec fn load_plan(
    variant: BpfVariant,
    track_rmap: bool,
    host: HostFacts,
    r: Result<LoadPlan, PageSizeError>,
) -> bool {
    match r {
        Ok(plan) => {
            &&& host.page_size > 0
            &&& plan.variant == variant
            &&& plan.page_shift == twos((host.page_size as u32) as nat, 32)
            &&& plan.target_pidns == host.pid_namespace
            &&& plan.rmap == used_support(track_rmap, host.kernel)
            &&& plan.disabled.deep_view() == disabled_programs(plan.rmap)
        },
        Err(_) => host.page_size <= 0,
    }
}

/// Closing the groups closes each link once, in at most 32 groups none of which is empty.
pub proof fn law_chunks_partition_links<L>(links: Seq<L>)
    ensures
        chunks(links, chunk_size(links.len())).len() <= 32,
        forall|i: int|
            0 <= i < chunks(links, chunk_size(links.len())).len() ==> 0 < (#[trigger] chunks(
                links,
                chunk_size(links.len()),
            )[i]).len() <= chunk_size(links.len()),
        chunks(links, chunk_size(links.len())).reverse().flatten() == links,
{
    let size = chunk_size(links.len());
    lemma_chunks(links, size);
    if links.len() > 0 {
        assert(size * 32 >= links.len());
        assert(chunks(links, size).len() <= 32) by {
            if chunks(links, size).len() > 32 {
                assert((chunks(links, size).len() - 1) * size >= 32 * size) by (nonlinear_arith)
                    requires
                        chunks(links, size).len() >= 33,
                ;
            }
        }
    }
}

proof fn lemma_chunks<L>(links: Seq<L>, size: nat)
    requires
        links.len() == 0 || size > 0,
    ensures
        forall|i: int|
            0 <= i < chunks(links, size).len() ==> 0 < (#[trigger] chunks(links, size)[i]).len()
                <= size,
        links.len() > 0 ==> (chunks(links, size).len() - 1) * size < links.len(),
        chunks(links, size).reverse().flatten() == links,
    decreases links.len(),
{
    let all = chunks(links, size);
    if links.len() == 0 {
        assert(all.reverse() =~= seq![]);
        assert(all.reverse().flatten() =~= links);
    } else {
        let at = if links.len() > size {
            links.len() - size
        } else {
            0
        };
        let rest = chunks(links.take(at), size);
        lemma_chunks(links.take(at), size);
        assert(all =~= seq![links.skip(at)] + rest);
        assert forall|i: int| 0 <= i < all.len() implies 0 < (#[trigger] all[i]).len() <= size by {
            if i > 0 {
                assert(all[i] == rest[i - 1]);
            }
        }
        assert((all.len() - 1) * size < links.len()) by {
            if at > 0 {
                assert((all.len() - 1) * size == (rest.len() - 1) * size + size) by (nonlinear_arith)
                    requires
                        all.len() == rest.len() + 1,
                ;
            } else {
                assert(rest.len() == 0);
                assert((all.len() - 1) * size == 0) by (nonlinear_arith)
                    requires
                        all.len() == 1,
                ;
            }
        }
        assert(all.reverse() =~= rest.reverse().push(links.skip(at)));
        rest.reverse().lemma_flatten_push(links.skip(at));
        assert(links.take(at) + links.skip(at) =~= links);
    }
}

/// A function that a library defines gets a probe where it is entered, at the offset of its
/// definition, and one more at the same place where it returns, if that is asked for. One that it
/// does not define gets none.
pub proof fn law_probes_follow_definitions(
    library: &str,
    symbol: &str,
    symbols: &ResolvedSymbols,
    with_return: bool,
    offset: Option<usize>,
    probes: Option<Vec<Uprobe>>,
)
    requires
        call_ensures(ResolvedSymbols::offset, (symbols, symbol), offset),
        call_ensures(probes_if_found, (library, symbol, symbols, with_return), probes),
    ensures
        probes is Some <==> offset is Some,
        probes matches Some(list) ==> {
            &&& list@.len() >= 1
            &&& list@.len() == 2 <==> with_return
            &&& list@.len() <= 2
            &&& !list@[0].on_return
            &&& with_return ==> list@[1].on_return
            &&& forall|i: int|
                0 <= i < list@.len() ==> (#[trigger] list@[i]).library@ == library@ && Some(
                    list@[i].offset,
                ) == offset
        },
{
}

/// The programs are loaded for the host that they run on: with the bits of its pages, in the
/// namespace of its process IDs, and with the hooks that its kernel offers, where those are asked
/// for. Programs for hooks that are not used are left out.
pub proof fn law_plan_fits_the_host<L>(
    k: nat,
    track_rmap: bool,
    token_path: Option<&str>,
    token_is_dir: bool,
    host: HostFacts,
    r: Result<LoadPlan, PageSizeError>,
)
    requires
        call_ensures(
            MemtrackBpf::<L>::new_with_rmap,
            (track_rmap, token_path, token_is_dir, host),
            r,
        ),
        k < 31,
    ensures
        r is Ok <==> host.page_size > 0,
        r matches Ok(plan) ==> {
            &&& host.page_size == vstd::arithmetic::power2::pow2(k) ==> plan.page_shift == k
            &&& plan.target_pidns == host.pid_namespace
            &&& plan.variant == BpfVariant::Token <==> (token_path matches Some(path) && path@.len()
                > 0 && token_is_dir)
            &&& !track_rmap || host.kernel is None ==> plan.rmap is Unsupported
            &&& track_rmap && host.kernel is Some ==> plan.rmap == rmap::support_of(host.kernel->0)
            &&& plan.rmap is CoreAndPud ==> plan.disabled@.len() == 0
            &&& plan.rmap is Core ==> plan.disabled.deep_view() =~= seq![
                "fentry_folio_add_file_rmap_pud"@,
                "fentry_folio_remove_rmap_pud"@,
            ]
            &&& plan.rmap is Unsupported ==> plan.disabled@.len() == 9
        },
{
    if let Ok(plan) = r {
        assert(plan.disabled.deep_view().len() == plan.disabled@.len());
        if host.page_size == vstd::arithmetic::power2::pow2(k) {
            law_page_shift_of_power(k);
            vstd::arithmetic::power2::lemma_pow2_strictly_increases(k, 31);
            vstd::arithmetic::power2::lemma2_to64();
            assert((host.page_size as u32) as nat == vstd::arithmetic::power2::pow2(k));
        }
    }
}

proof fn lemma_last_entry(list: Seq<(Seq<char>, usize)>, name: Seq<char>)
    ensures
        last_offset(list, name) is None <==> forall|i: int|
            0 <= i < list.len() ==> (#[trigger] list[i]).0 != name,
        forall|i: int|
            #![trigger list[i]]
            0 <= i < list.len() && list[i].0 == name && (forall|j: int|
                i < j < list.len() ==> (#[trigger] list[j]).0 != name) ==> last_offset(list, name)
                == Some(list[i].1),
    decreases list.len(),
{
    if list.len() > 0 {
        let before = list.drop_last();
        let n = list.len() - 1;
        lemma_last_entry(before, name);
        assert forall|i: int|
            #![trigger list[i]]
            0 <= i < list.len() && list[i].0 == name && (forall|j: int|
                i < j < list.len() ==> (#[trigger] list[j]).0 != name) implies last_offset(
            list,
            name,
        ) == Some(list[i].1) by {
            if i < n {
                assert(list[n].0 != name);
                assert(before[i] == list[i]);
                assert forall|j: int| i < j < before.len() implies (#[trigger] before[j]).0
                    != name by {
                    assert(before[j] == list[j]);
                }
            }
        }
        if last_offset(list, name) is None {
            assert forall|i: int| 0 <= i < list.len() implies (#[trigger] list[i]).0 != name by {
                if i < n {
                    assert(before[i] == list[i]);
                }
            }
        } else if list[n].0 != name {
            let i = choose|i: int| 0 <= i < before.len() && (#[trigger] before[i]).0 == name;
            assert(list[i] == before[i]);
        } else {
            assert(list[n].0 == name);
        }
    }
}

/// A symbol is where the last entry of its name says, and only symbols with an entry are found.
pub proof fn law_last_entry_of_a_symbol_counts(
    list: Vec<SymbolOffset>,
    r: ResolvedSymbols,
    i: int,
    name: Seq<char>,
)
    requires
        call_ensures(ResolvedSymbols::from_list, (list,), r),
    ensures
        0 <= i < list@.len() && (forall|j: int|
            i < j < list@.len() ==> (#[trigger] list@[j]).name@ != list@[i].name@) ==> r.offset_of(
            list@[i].name@,
        ) == Some(list@[i].offset),
        r.offset_of(name) is None <==> forall|j: int|
            0 <= j < list@.len() ==> (#[trigger] list@[j]).name@ != name,
{
    let all = list.deep_view();
    assert forall|j: int| 0 <= j < all.len() implies #[trigger] all[j] == (
        list@[j].name@,
        list@[j].offset,
    ) by {}
    lemma_last_entry(all, name);
    if r.offset_of(name) is None {
        assert forall|j: int| 0 <= j < list@.len() implies (#[trigger] list@[j]).name@ != name by {
            assert(all[j].0 != name);
        }
    } else {
        let j = choose|j: int| 0 <= j < all.len() && (#[trigger] all[j]).0 == name;
        assert(list@[j].name@ == name);
    }
    if 0 <= i < list@.len() && (forall|j: int|
        i < j < list@.len() ==> (#[trigger] list@[j]).name@ != list@[i].name@) {
        lemma_last_entry(all, list@[i].name@);
        assert(all[i].0 == list@[i].name@);
        assert forall|j: int| i < j < all.len() implies (#[trigger] all[j]).0 != list@[i].name@ by {
            assert(list@[j].name@ != list@[i].name@);
        }
    }
}

/// The programs for hooks that a kernel lacks are not loaded: none where it has all, those for the
/// largest pages where it lacks these, and all where it has none.
pub proof fn law_programs_need_their_hooks(
    none: Vec<String>,
    core: Vec<String>,
    all: Vec<String>,
)
    requires
        call_ensures(programs_to_disable, (RmapSupport::Unsupported,), none),
        call_ensures(programs_to_disable, (RmapSupport::Core,), core),
        call_ensures(programs_to_disable, (RmapSupport::CoreAndPud,), all),
    ensures
        all@.len() == 0,
        core.deep_view() == seq![
            "fentry_folio_add_file_rmap_pud"@,
            "fentry_folio_remove_rmap_pud"@,
        ],
        none.deep_view() == seq![
            "fentry_folio_add_new_anon_rmap"@,
            "fentry_folio_add_anon_rmap_ptes"@,
            "fentry_folio_add_anon_rmap_pmd"@,
            "fentry_folio_add_file_rmap_ptes"@,
            "fentry_folio_add_file_rmap_pmd"@,
            "fentry_folio_remove_rmap_ptes"@,
            "fentry_folio_remove_rmap_pmd"@,
            "fentry_folio_add_file_rmap_pud"@,
            "fentry_folio_remove_rmap_pud"@,
        ],
{
    assert(all.deep_view().len() == all@.len());
}

/// All probes are taken off, each once, in at most 32 groups.
pub proof fn law_all_probes_are_detached<L>(bpf: &mut MemtrackBpf<L>, r: Vec<Vec<L>>)
    requires
        call_ensures(MemtrackBpf::<L>::detach_probes, (bpf,), r),
    ensures
        final(bpf).probes@.len() == 0,
        r@.len() <= 32,
        Seq::new(r@.len(), |i: int| r@[i]@).reverse().flatten() == old(bpf).probes@,
        forall|i: int| 0 <= i < r@.len() ==> (#[trigger] r@[i])@.len() > 0,
{
    let links = old(bpf).probes@;
    let groups = chunks(links, chunk_size(links.len()));
    law_chunks_partition_links(links);
    assert(Seq::new(r@.len(), |i: int| r@[i]@) =~= groups);
    assert forall|i: int| 0 <= i < r@.len() implies (#[trigger] r@[i])@.len() > 0 by {
        assert(groups[i].len() > 0);
    }
}

} // verus!
