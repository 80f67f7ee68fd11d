//! The symbols of a module.
use std::collections::HashMap;

use vstd::prelude::*;

use crate::elf::{check_object, dynamic_symbols, symbols, SymbolRow};
use crate::numeral::u64_to_hex;
use crate::path::join_path;
use crate::runner_shared::module_symbols::SYMBOLS_MAP_SUFFIX;
use crate::sort::{sort, Ranked};
use crate::text::chars_of;

verus! {

/// The size of a page of memory.
pub const PAGE_SIZE: u64 = 4096;

#[derive(Hash, PartialEq, Eq, Debug)]
pub struct Symbol {
    pub addr: u64,
    pub size: u64,
    pub name: String,
}

#[verifier::ext_equal]
pub struct SymbolView {
    pub addr: u64,
    pub size: u64,
    pub name: Seq<char>,
}

impl DeepView for Symbol {
    type V = SymbolView;

    open spec fn deep_view(&self) -> SymbolView {
        SymbolView { addr: self.addr, size: self.size, name: self.name@ }
    }
}

impl Clone for Symbol {
    fn clone(&self) -> (r: Self)
        ensures
            r.deep_view() == self.deep_view(),
    {
        Symbol { addr: self.addr, size: self.size, name: self.name.clone() }
    }
}

/// Symbols are ordered by their addresses.
impl Ranked for Symbol {
    open spec fn ranked(a: SymbolView, b: SymbolView) -> bool {
        a.addr <= b.addr
    }

    proof fn ranked_is_total(a: SymbolView, b: SymbolView) {
    }

    proof fn ranked_is_transitive(a: SymbolView, b: SymbolView, c: SymbolView) {
    }

    fn at_most(&self, other: &Self) -> (r: bool) {
        self.addr <= other.addr
    }
}

/// Text to be added to the end of a file.
#[derive(Debug)]
pub struct FileAppend {
    pub path: String,
    pub text: String,
}

impl DeepView for FileAppend {
    type V = (Seq<char>, Seq<char>);

    open spec fn deep_view(&self) -> (Seq<char>, Seq<char>) {
        (self.path@, self.text@)
    }
}

/// Why no symbols were found in a file.
#[derive(Debug, PartialEq, Eq)]
pub enum SymbolsError {
    /// The file is no object file.
    Object(String),
    /// No symbol of the file covers code.
    NoSymbols,
}

/// The symbols among `rows` whose names can be read.
pub open spec fn named(rows: Seq<crate::elf::SymbolRowView>) -> Seq<SymbolView>
    decreases rows.len(),
{
    if rows.len() == 0 {
        seq![]
    } else {
        let rest = named(rows.drop_last());
        let row = rows.last();
        match row.name {
            Some(name) => rest.push(SymbolView { addr: row.address, size: row.size, name }),
            None => rest,
        }
    }
}

/// The symbols of the symbol table and then those of the dynamic symbol table.
pub open spec fn extracted(bytes: Seq<u8>) -> Seq<SymbolView> {
    named(crate::elf::symbol_rows(bytes)) + named(crate::elf::dynamic_symbol_rows(bytes))
}

/// Whether one of `symbols` has the address and the name of `s`.
pub open spec fn has_twin(symbols: Seq<SymbolView>, s: SymbolView) -> bool {
    exists|i: int|
        0 <= i < symbols.len() && #[trigger] symbols[i].addr == s.addr && symbols[i].name == s.name
}

/// `symbols`, followed by those of the debug file that they lack.
pub open spec fn merged(
    symbols: Seq<SymbolView>,
    debug_symbols: Option<Seq<SymbolView>>,
) -> Seq<SymbolView> {
    match debug_symbols {
        Some(more) => symbols + more.filter(|s: SymbolView| !has_twin(symbols, s)),
        None => symbols,
    }
}

/// Whether `name` is that of an ARM mapping symbol: `$a`, `$d`, `$t` or `$x`, alone or before a
/// dot.
pub open spec fn mapping_symbol(name: Seq<char>) -> bool {
    &&& name.len() >= 2
    &&& name[0] == '$'
    &&& (name[1] == 'a' || name[1] == 'd' || name[1] == 't' || name[1] == 'x')
    &&& (name.len() == 2 || name[2] == '.')
}

/// The symbols that stand for something.
pub open spec fn meaningful() -> spec_fn(SymbolView) -> bool {
    |s: SymbolView| s.name.len() > 0 && !mapping_symbol(s.name)
}

/// The symbols that cover something.
pub open spec fn covering() -> spec_fn(SymbolView) -> bool {
    |s: SymbolView| s.size > 0
}

/// The start of the page that begins at `addr` or next after it.
pub open spec fn page_after(addr: u64) -> int {
    ((addr + PAGE_SIZE - 1) / PAGE_SIZE as int) * PAGE_SIZE
}

/// The size that an empty symbol is taken to have: it reaches to the next symbol, and the last
/// one to the end of the page after it.
pub open spec fn stretch(s: Seq<SymbolView>, i: int) -> int {
    if i + 1 < s.len() {
        s[i + 1].addr - s[i].addr
    } else {
        page_after(s[i].addr) + PAGE_SIZE - s[i].addr
    }
}

/// The symbols in the order of their addresses, with a size for those that had none.
pub open spec fn sized(s: Seq<SymbolView>) -> Seq<SymbolView> {
    Seq::new(
        s.len(),
        |i: int|
            if s[i].size == 0 {
                SymbolView { size: stretch(s, i) as u64, ..s[i] }
            } else {
                s[i]
            },
    )
}

/// The meaningful symbols of a file and of its debug file, by address.
pub open spec fn ordered(
    symbols: Seq<SymbolView>,
    debug_symbols: Option<Seq<SymbolView>>,
) -> Seq<SymbolView> {
    crate::sort::stable_sorted::<Symbol>(merged(symbols, debug_symbols).filter(meaningful()))
}

/// Whether the size of the last symbol can be told.
pub open spec fn last_page_fits(s: Seq<SymbolView>) -> bool {
    s.len() > 0 && s.last().size == 0 ==> page_after(s.last().addr) + PAGE_SIZE <= u64::MAX
}

/// The symbols of a module, from those of its file and of its debug file.
pub open spec fn module_symbols(
    symbols: Seq<SymbolView>,
    debug_symbols: Option<Seq<SymbolView>>,
) -> Seq<SymbolView> {
    sized(ordered(symbols, debug_symbols)).filter(covering())
}

/// The symbols that a debug file adds, if it is an object file.
pub open spec fn debug_extracted(debug_content: Option<Seq<u8>>) -> Option<Seq<SymbolView>> {
    match debug_content {
        Some(bytes) => if crate::elf::object_error(bytes) is None {
            Some(extracted(bytes))
        } else {
            None
        },
        None => None,
    }
}

/// One line for each symbol: its address, its size and its name.
pub open spec fn symbol_lines(s: Seq<SymbolView>) -> Seq<char>
    decreases s.len(),
{
    if s.len() == 0 {
        seq![]
    } else {
        let x = s.last();
        symbol_lines(s.drop_last()) + crate::numeral::hex(x.addr as nat) + seq![' ']
            + crate::numeral::hex(x.size as nat) + seq![' '] + x.name + seq!['\n']
    }
}

fn named_symbols(rows: Vec<SymbolRow>) -> (r: Vec<Symbol>)
    ensures
        r.deep_view() == named(rows.deep_view()),
{
    let ghost all = rows.deep_view();
    let mut out: Vec<Symbol> = Vec::new();
    assert(all.take(0) =~= seq![]);
    for row in it: rows
        invariant
            all.len() == it.seq().len(),
            forall|i: int| 0 <= i < all.len() ==> all[i] == (#[trigger] it.seq()[i]).deep_view(),
            out.deep_view() == named(all.take(it.index())),
    {
        let ghost n = it.index();
        let ghost before = out;
        assert(all[n] == row.deep_view());
        assert(all.take(n + 1).drop_last() =~= all.take(n));
        if let Some(name) = row.name {
            let s = Symbol { addr: row.address, size: row.size, name };
            out.push(s);
            proof {
                crate::list::lemma_deep_push(before, s, out);
            }
        }
    }
    assert(all.take(all.len() as int) =~= all);
    out
}

/// The symbols of the symbol table and then those of the dynamic symbol table.
fn extract_symbols_from_object(bytes: &[u8]) -> (r: Vec<Symbol>)
    ensures
        r.deep_view() == extracted(bytes@),
{
    let mut out: Vec<Symbol> = named_symbols(symbols(bytes));
    let mut more: Vec<Symbol> = named_symbols(dynamic_symbols(bytes));
    let ghost a = out.deep_view();
    let ghost b = more.deep_view();
    out.append(&mut more);
    assert(out.deep_view() =~= a + b);
    out
}

/// The positions of the symbols, by their addresses.
fn positions_by_address(symbols: &Vec<Symbol>) -> (r: HashMap<u64, Vec<usize>>)
    ensures
        forall|i: int|
            0 <= i < symbols@.len() ==> r@.contains_key(#[trigger] symbols@[i].addr)
                && r@[symbols@[i].addr]@.contains(i as usize),
        forall|a: u64, k: int|
            r@.contains_key(a) && 0 <= k < r@[a]@.len() ==> (#[trigger] r@[a]@[k]) < symbols@.len()
                && symbols@[r@[a]@[k] as int].addr == a,
{
    broadcast use vstd::std_specs::hash::group_hash_axioms;

    let mut r: HashMap<u64, Vec<usize>> = HashMap::new();
    let mut n: usize = 0;
    while n < symbols.len()
        invariant
            n <= symbols@.len(),
            forall|i: int|
                0 <= i < n ==> r@.contains_key(#[trigger] symbols@[i].addr)
                    && r@[symbols@[i].addr]@.contains(i as usize),
            forall|a: u64, k: int|
                r@.contains_key(a) && 0 <= k < r@[a]@.len() ==> (#[trigger] r@[a]@[k])
                    < symbols@.len() && symbols@[r@[a]@[k] as int].addr == a,
        decreases symbols.len() - n,
    {
        let addr: u64 = symbols[n].addr;
        let ghost before = r@;
        let mut list: Vec<usize> = match r.remove(&addr) {
            Some(list) => list,
            None => Vec::new(),
        };
        let ghost old_list = list@;
        list.push(n);
        let ghost new_list = list@;
        r.insert(addr, list);
        proof {
            assert(new_list[old_list.len() as int] == n);
            assert forall|i: int| 0 <= i < n + 1 implies r@.contains_key(#[trigger] symbols@[i].addr)
                && r@[symbols@[i].addr]@.contains(i as usize) by {
                if i < n && symbols@[i].addr == addr {
                    let k = choose|k: int| 0 <= k < old_list.len() && old_list[k] == i as usize;
                    assert(new_list[k] == i as usize);
                }
            }
            assert forall|a: u64, k: int|
                r@.contains_key(a) && 0 <= k < r@[a]@.len() implies (#[trigger] r@[a]@[k])
                < symbols@.len() && symbols@[r@[a]@[k] as int].addr == a by {
                if a == addr {
                    if k < old_list.len() {
                        assert(before.contains_key(addr));
                        assert(before[addr]@[k] == new_list[k]);
                    }
                } else {
                    assert(before[a]@[k] == r@[a]@[k]);
                }
            }
        }
        n = n + 1;
    }
    r
}

/// `symbols`, followed by those of `debug_symbols` that they lack.
fn merge_symbols(symbols: Vec<Symbol>, debug_symbols: Vec<Symbol>) -> (r: Vec<Symbol>)
    ensures
        r.deep_view() == merged(symbols.deep_view(), Some(debug_symbols.deep_view())),
{
    broadcast use vstd::std_specs::hash::group_hash_axioms;

    let existing = positions_by_address(&symbols);
    let ghost a = symbols.deep_view();
    let ghost b = debug_symbols.deep_view();
    let ghost p = |s: SymbolView| !has_twin(a, s);
    let mut added: Vec<Symbol> = Vec::new();
    assert(b.take(0) =~= seq![]);
    assert(b.take(0).filter(p) =~= seq![]) by {
        reveal(Seq::filter);
    }
    for s in it: debug_symbols
        invariant
            a == symbols.deep_view(),
            p == (|s: SymbolView| !has_twin(a, s)),
            b.len() == it.seq().len(),
            forall|i: int| 0 <= i < b.len() ==> b[i] == (#[trigger] it.seq()[i]).deep_view(),
            added.deep_view() == b.take(it.index()).filter(p),
            forall|i: int|
                0 <= i < symbols@.len() ==> existing@.contains_key(#[trigger] symbols@[i].addr)
                    && existing@[symbols@[i].addr]@.contains(i as usize),
            forall|a: u64, k: int|
                existing@.contains_key(a) && 0 <= k < existing@[a]@.len() ==> (
                #[trigger] existing@[a]@[k]) < symbols@.len()
                    && symbols@[existing@[a]@[k] as int].addr == a,
    {
        broadcast use vstd::std_specs::hash::group_hash_axioms;

        let ghost n = it.index();
        let ghost before = added;
        let ghost v = s.deep_view();
        assert(b[n] == v);
        proof {
            crate::list::lemma_take_push(b, n);
            crate::list::lemma_filter_push(b.take(n), v, p);
        }
        let mut found: bool = false;
        if let Some(list) = existing.get(&s.addr) {
            let mut k: usize = 0;
            while k < list.len() && !found
                invariant
                    a == symbols.deep_view(),
                    v == s.deep_view(),
                    k <= list@.len(),
                    existing@.contains_key(s.addr),
                    *list == existing@[s.addr],
                    found ==> has_twin(a, v),
                    !found ==> forall|j: int|
                        0 <= j < k ==> symbols@[(#[trigger] list@[j]) as int].name@ != s.name@,
                    forall|a: u64, k: int|
                        existing@.contains_key(a) && 0 <= k < existing@[a]@.len() ==> (
                        #[trigger] existing@[a]@[k]) < symbols@.len()
                            && symbols@[existing@[a]@[k] as int].addr == a,
                decreases list.len() - k + (if found { 0int } else { 1int }),
            {
                assert(existing@[s.addr]@[k as int] < symbols@.len());
                let i: usize = list[k];
                if symbols[i].name == s.name {
                    assert(a[i as int].addr == v.addr && a[i as int].name == v.name);
                    found = true;
                } else {
                    k = k + 1;
                }
            }
        }
        proof {
            if !found && has_twin(a, v) {
                let i = choose|i: int|
                    0 <= i < a.len() && #[trigger] a[i].addr == v.addr && a[i].name == v.name;
                assert(symbols.len() == symbols@.len());
                assert(symbols@[i].addr == v.addr);
                let list = existing@[v.addr]@;
                assert(list.contains(i as usize));
                let j = choose|j: int| 0 <= j < list.len() && list[j] == i as usize;
                assert(symbols@[list[j] as int].name@ == v.name);
                assert(false);
            }
        }
        if !found {
            added.push(s);
            proof {
                crate::list::lemma_deep_push(before, s, added);
            }
        }
    }
    assert(b.take(b.len() as int) =~= b);
    let mut out = symbols;
    let ghost more = added.deep_view();
    out.append(&mut added);
    assert(out.deep_view() =~= a + more);
    out
}

/// Whether `name` is that of an ARM mapping symbol.
fn is_mapping_symbol(name: &str) -> (r: bool)
    ensures
        r == mapping_symbol(name@),
{
    let cs = chars_of(name);
    if cs.len() < 2 || cs[0] != '$' {
        return false;
    }
    if cs[1] != 'a' && cs[1] != 'd' && cs[1] != 't' && cs[1] != 'x' {
        return false;
    }
    cs.len() == 2 || cs[2] == '.'
}

fn keep_meaningful(v: Vec<Symbol>) -> (r: Vec<Symbol>)
    ensures
        r.deep_view() == v.deep_view().filter(meaningful()),
{
    let ghost all = v.deep_view();
    let mut out: Vec<Symbol> = Vec::new();
    assert(all.take(0) =~= seq![]);
    assert(all.take(0).filter(meaningful()) =~= seq![]) by {
        reveal(Seq::filter);
    }
    for s in it: v
        invariant
            all.len() == it.seq().len(),
            forall|i: int| 0 <= i < all.len() ==> all[i] == (#[trigger] it.seq()[i]).deep_view(),
            out.deep_view() == all.take(it.index()).filter(meaningful()),
    {
        let ghost n = it.index();
        let ghost before = out;
        assert(all[n] == s.deep_view());
        proof {
            crate::list::lemma_take_push(all, n);
            crate::list::lemma_filter_push(all.take(n), all[n], meaningful());
        }
        if s.name.as_str().unicode_len() > 0 && !is_mapping_symbol(s.name.as_str()) {
            out.push(s);
            proof {
                crate::list::lemma_deep_push(before, s, out);
            }
        }
    }
    assert(all.take(all.len() as int) =~= all);
    out
}

fn keep_covering(v: Vec<Symbol>) -> (r: Vec<Symbol>)
    ensures
        r.deep_view() == v.deep_view().filter(covering()),
{
    let ghost all = v.deep_view();
    let mut out: Vec<Symbol> = Vec::new();
    assert(all.take(0) =~= seq![]);
    assert(all.take(0).filter(covering()) =~= seq![]) by {
        reveal(Seq::filter);
    }
    for s in it: v
        invariant
            all.len() == it.seq().len(),
            forall|i: int| 0 <= i < all.len() ==> all[i] == (#[trigger] it.seq()[i]).deep_view(),
            out.deep_view() == all.take(it.index()).filter(covering()),
    {
        let ghost n = it.index();
        let ghost before = out;
        assert(all[n] == s.deep_view());
        proof {
            crate::list::lemma_take_push(all, n);
            crate::list::lemma_filter_push(all.take(n), all[n], covering());
        }
        if s.size > 0 {
            out.push(s);
            proof {
                crate::list::lemma_deep_push(before, s, out);
            }
        }
    }
    assert(all.take(all.len() as int) =~= all);
    out
}

/// Gives each symbol without a size the range up to the next symbol.
fn fill_sizes(v: Vec<Symbol>) -> (r: Vec<Symbol>)
    requires
        crate::sort::in_order::<Symbol>(v.deep_view()),
        last_page_fits(v.deep_view()),
    ensures
        r.deep_view() == sized(v.deep_view()),
{
    let ghost s = v.deep_view();
    let mut v = v;
    let mut i: usize = 0;
    while i < v.len()
        invariant
            i <= v@.len(),
            v@.len() == s.len(),
            crate::sort::in_order::<Symbol>(s),
            last_page_fits(s),
            forall|j: int| 0 <= j < i ==> (#[trigger] v@[j]).deep_view() == sized(s)[j],
            forall|j: int| i <= j < s.len() ==> (#[trigger] v@[j]).deep_view() == s[j],
        decreases v.len() - i,
    {
        assert(v@[i as int].deep_view() == s[i as int]);
        if v[i].size == 0 {
            let addr: u64 = v[i].addr;
            let size: u64 = if i + 1 < v.len() {
                assert(v@[i + 1].deep_view() == s[i + 1]);
                assert(Symbol::ranked(s[i as int], s[i + 1]));
                v[i + 1].addr - addr
            } else {
                assert(s.last() == s[i as int]);
                let rest: u64 = addr % PAGE_SIZE;
                let gap: u64 = if rest == 0 {
                    0
                } else {
                    PAGE_SIZE - rest
                };
                assert(page_after(addr) == addr + gap);
                gap + PAGE_SIZE
            };
            assert(size == stretch(s, i as int));
            let ghost before = v@;
            let name = v[i].name.clone();
            v.set(i, Symbol { addr, size, name });
            assert(v@ =~= before.update(i as int, v@[i as int]));
        }
        assert(v@[i as int].deep_view() == sized(s)[i as int]);
        i = i + 1;
    }
    assert(v.deep_view() =~= sized(s));
    v
}

/// The symbols of a module, extracted from its file.
///
/// The addresses are those that the file asks to be loaded at. In a process, the load bias of the
/// module is added to them.
#[derive(Debug)]
pub struct ModuleSymbols {
    symbols: Vec<Symbol>,
}

impl DeepView for ModuleSymbols {
    type V = Seq<SymbolView>;

    closed spec fn deep_view(&self) -> Seq<SymbolView> {
        self.symbols.deep_view()
    }
}

/// Whether no symbol ends beyond the last address.
pub open spec fn ends_fit(s: Seq<SymbolView>) -> bool {
    forall|i: int| 0 <= i < s.len() ==> (#[trigger] s[i]).addr + s[i].size <= u64::MAX
}

/// Whether `b` covers all symbols, and nothing before the first or after the last of them.
pub open spec fn tight_bounds(s: Seq<SymbolView>, b: (u64, u64)) -> bool {
    &&& forall|i: int|
        0 <= i < s.len() ==> b.0 <= (#[trigger] s[i]).addr && s[i].addr + s[i].size <= b.1
    &&& exists|i: int| 0 <= i < s.len() && (#[trigger] s[i]).addr == b.0
    &&& exists|i: int| 0 <= i < s.len() && (#[trigger] s[i]).addr + s[i].size == b.1
}

/// What `from_elf` returns for a file and its debug file.
pub open spec fn from_elf_result(
    content: Seq<u8>,
    debug_content: Option<Seq<u8>>,
    r: Result<ModuleSymbols, SymbolsError>,
) -> bool {
    match crate::elf::object_error(content) {
        Some(message) => r matches Err(SymbolsError::Object(m)) && m@ == message,
        None => built_from(extracted(content), debug_extracted(debug_content), r),
    }
}

/// What the symbols of a file and of its debug file are turned into.
pub open spec fn built_from(
    symbols: Seq<SymbolView>,
    debug_symbols: Option<Seq<SymbolView>>,
    r: Result<ModuleSymbols, SymbolsError>,
) -> bool {
    let all = module_symbols(symbols, debug_symbols);
    if all.len() == 0 {
        r matches Err(e) && e is NoSymbols
    } else {
        r matches Ok(m) && m.deep_view() == all
    }
}

impl ModuleSymbols {
    pub fn new(symbols: Vec<Symbol>) -> (r: Self)
        ensures
            r.deep_view() == symbols.deep_view(),
    {
        Self { symbols }
    }

    pub fn symbols(&self) -> (r: &[Symbol])
        ensures
            r.deep_view() == self.deep_view(),
    {
        let r = self.symbols.as_slice();
        assert(r.deep_view() =~= self.symbols.deep_view());
        r
    }

    /// The least address and the greatest end of all symbols, if there are any.
    pub fn addr_bounds(&self) -> (r: Option<(u64, u64)>)
        requires
            ends_fit(self.deep_view()),
        ensures
            match r {
                Some(b) => tight_bounds(self.deep_view(), b),
                None => self.deep_view().len() == 0,
            },
    {
        let ghost s = self.deep_view();
        if self.symbols.len() == 0 {
            return None;
        }
        assert(s[0] == self.symbols@[0].deep_view());
        let mut min: u64 = self.symbols[0].addr;
        let mut max: u64 = self.symbols[0].addr + self.symbols[0].size;
        let mut i: usize = 1;
        assert(s.take(1)[0] == s[0]);
        while i < self.symbols.len()
            invariant
                s == self.symbols.deep_view(),
                ends_fit(s),
                1 <= i <= self.symbols@.len(),
                tight_bounds(s.take(i as int), (min, max)),
            decreases self.symbols.len() - i,
        {
            let ghost t = s.take(i as int);
            let ghost u = s.take(i + 1);
            assert(s[i as int] == self.symbols@[i as int].deep_view());
            let addr: u64 = self.symbols[i].addr;
            let end: u64 = addr + self.symbols[i].size;
            let ghost a = choose|j: int| 0 <= j < t.len() && (#[trigger] t[j]).addr == min;
            let ghost b = choose|j: int|
                0 <= j < t.len() && (#[trigger] t[j]).addr + t[j].size == max;
            assert(u[a] == t[a] && u[b] == t[b]);
            assert(u[i as int] == s[i as int]);
            if addr < min {
                min = addr;
            }
            if end > max {
                max = end;
            }
            assert forall|j: int| 0 <= j < u.len() implies min <= (#[trigger] u[j]).addr && u[j].addr
                + u[j].size <= max by {
                if j < i {
                    assert(t[j] == u[j]);
                }
            }
            i = i + 1;
        }
        assert(s.take(s.len() as int) =~= s);
        Some((min, max))
    }

    /// The symbols of a module, from those of its file and of its debug file.
    pub fn from_tables(symbols: Vec<Symbol>, debug_symbols: Option<Vec<Symbol>>) -> (r: Result<
        Self,
        SymbolsError,
    >)
        requires
            last_page_fits(ordered(symbols.deep_view(), debug_symbols.deep_view())),
        ensures
            built_from(symbols.deep_view(), debug_symbols.deep_view(), r),
    {
        let all = match debug_symbols {
            Some(more) => merge_symbols(symbols, more),
            None => symbols,
        };
        let sorted = sort(keep_meaningful(all));
        let kept = keep_covering(fill_sizes(sorted));
        if kept.len() == 0 {
            return Err(SymbolsError::NoSymbols);
        }
        Ok(Self { symbols: kept })
    }

    /// The symbols of the object file `content`, together with those of its separate debug file,
    /// if there is one.
    ///
    /// A debug file that is no object file adds nothing.
    pub fn from_elf(content: &[u8], debug_content: Option<&[u8]>) -> (r: Result<Self, SymbolsError>)
        requires
            crate::elf::object_error(content@) is None ==> last_page_fits(
                ordered(extracted(content@), debug_extracted(crate::elf::bytes_of(debug_content))),
            ),
        ensures
            from_elf_result(content@, crate::elf::bytes_of(debug_content), r),
    {
        match check_object(content) {
            Some(message) => {
                return Err(SymbolsError::Object(message));
            },
            None => {},
        }
        let debug_symbols = debug_symbols_of(debug_content);
        Self::from_tables(extract_symbols_from_object(content), debug_symbols)
    }

    /// The symbols of the object file `content` and of its debug file, or `None` where the last
    /// symbol has no size and the page after it would end beyond the last address.
    pub fn try_from_elf(content: &[u8], debug_content: Option<&[u8]>) -> (r: Option<
        Result<Self, SymbolsError>,
    >)
        ensures
            match r {
                Some(symbols) => from_elf_result(
                    content@,
                    crate::elf::bytes_of(debug_content),
                    symbols,
                ),
                None => crate::elf::object_error(content@) is None && !last_page_fits(
                    ordered(extracted(content@), debug_extracted(crate::elf::bytes_of(debug_content))),
                ),
            },
    {
        match check_object(content) {
            Some(message) => {
                return Some(Err(SymbolsError::Object(message)));
            },
            None => {},
        }
        let symbols = extract_symbols_from_object(content);
        let all = match debug_symbols_of(debug_content) {
            Some(more) => merge_symbols(symbols, more),
            None => symbols,
        };
        let sorted = sort(keep_meaningful(all));
        let n: usize = sorted.len();
        if n > 0 && sorted[n - 1].size == 0 {
            let addr: u64 = sorted[n - 1].addr;
            assert(sorted.deep_view().last() == sorted@[n - 1].deep_view());
            if addr > 0xffff_ffff_ffff_e000 {
                return None;
            }
        }
        Some(Self::from_elf(content, debug_content))
    }

    /// What is added to the file at `path`: one line for each symbol.
    pub fn append_to_file(&self, path: &str) -> (r: FileAppend)
        ensures
            r.path@ == path@,
            r.text@ == symbol_lines(self.deep_view()),
    {
        let ghost s = self.deep_view();
        let mut text = String::new();
        let mut i: usize = 0;
        assert(s.take(0) =~= seq![]);
        assert(text@ =~= seq![]);
        while i < self.symbols.len()
            invariant
                s == self.symbols.deep_view(),
                i <= self.symbols@.len(),
                text@ == symbol_lines(s.take(i as int)),
            decreases self.symbols.len() - i,
        {
            let ghost before = text@;
            assert(s.take(i + 1).drop_last() =~= s.take(i as int));
            assert(s[i as int] == self.symbols@[i as int].deep_view());
            let addr = u64_to_hex(self.symbols[i].addr);
            let size = u64_to_hex(self.symbols[i].size);
            text.append(addr.as_str());
            text.push(' ');
            text.append(size.as_str());
            text.push(' ');
            text.append(self.symbols[i].name.as_str());
            text.push('\n');
            assert(text@ =~= before + addr@ + seq![' '] + size@ + seq![' '] + s[i as int].name + seq![
                '\n',
            ]);
            i = i + 1;
        }
        assert(s.take(s.len() as int) =~= s);
        FileAppend { path: path.to_owned(), text }
    }

    /// What is added to the file of `folder` that holds the symbols under `key`.
    pub fn save_to_keyed_file(&self, folder: &str, key: &str) -> (r: FileAppend)
        ensures
            r.path@ == crate::path::joined_path(folder@, key@ + seq!['.'] + SYMBOLS_MAP_SUFFIX@),
            r.text@ == symbol_lines(self.deep_view()),
    {
        let mut name = key.to_owned();
        name.push('.');
        name.append(SYMBOLS_MAP_SUFFIX);
        assert(name@ =~= key@ + seq!['.'] + SYMBOLS_MAP_SUFFIX@);
        let path = join_path(folder, name.as_str());
        self.append_to_file(path.as_str())
    }
}

/// The symbols of a debug file, if there is one and it is an object file.
fn debug_symbols_of(debug_content: Option<&[u8]>) -> (r: Option<Vec<Symbol>>)
    ensures
        r.deep_view() == debug_extracted(crate::elf::bytes_of(debug_content)),
{
    match debug_content {
        Some(bytes) => match check_object(bytes) {
            Some(_) => None,
            None => Some(extract_symbols_from_object(bytes)),
        },
        None => None,
    }
}

// ---------------------------------------------------------------------------------------------
// Which symbols a module has
// ---------------------------------------------------------------------------------------------

/// The symbol that a row of a symbol table stands for.
pub open spec fn symbol_in(row: crate::elf::SymbolRowView) -> SymbolView {
    SymbolView { addr: row.address, size: row.size, name: row.name->0 }
}

/// Whether a row of a symbol table names something: its name can be read, is not empty and is no ARM
/// mapping symbol, such as `$d` or `$x.1`.
pub open spec fn names_something(row: crate::elf::SymbolRowView) -> bool {
    &&& row.name matches Some(name)
    &&& name.len() > 0
    &&& !(name.len() >= 2 && name[0] == '$' && (name[1] == 'a' || name[1] == 'd' || name[1] == 't'
        || name[1] == 'x') && (name.len() == 2 || name[2] == '.'))
}

proof fn lemma_named(rows: Seq<crate::elf::SymbolRowView>, i: int)
    requires
        0 <= i < rows.len(),
        rows[i].name is Some,
    ensures
        named(rows).contains(symbol_in(rows[i])),
    decreases rows.len(),
{
    let rest = rows.drop_last();
    if i < rows.len() - 1 {
        lemma_named(rest, i);
        let k = named(rest).index_of(symbol_in(rows[i]));
        assert(named(rows)[k] == named(rest)[k]);
    } else {
        assert(named(rows).last() == symbol_in(rows[i]));
    }
}

proof fn lemma_named_rev(rows: Seq<crate::elf::SymbolRowView>, k: int)
    requires
        0 <= k < named(rows).len(),
    ensures
        exists|i: int|
            0 <= i < rows.len() && (#[trigger] rows[i]).name is Some && symbol_in(rows[i]) == named(
                rows,
            )[k],
    decreases rows.len(),
{
    if rows.len() > 0 {
        let rest = rows.drop_last();
        if k < named(rest).len() {
            lemma_named_rev(rest, k);
            let i = choose|i: int|
                0 <= i < rest.len() && (#[trigger] rest[i]).name is Some && symbol_in(rest[i])
                    == named(rest)[k];
            assert(rows[i] == rest[i]);
        } else {
            assert(rows[rows.len() - 1].name is Some);
        }
    }
}

/// Where a symbol stands among the meaningful ones in the order of their addresses.
proof fn lemma_ordered(symbols: Seq<SymbolView>, debug: Option<Seq<SymbolView>>, s: SymbolView)
    ensures
        ordered(symbols, debug).contains(s) <==> merged(symbols, debug).contains(s) && meaningful()(s),
        crate::sort::in_order::<Symbol>(ordered(symbols, debug)),
{
    broadcast use vstd::seq_lib::group_to_multiset_ensures;

    let all = merged(symbols, debug);
    let kept = all.filter(meaningful());
    let sorted = ordered(symbols, debug);
    crate::sort::law_sorted_form_is_a_stable_sort::<Symbol>(kept);
    assert(sorted.to_multiset().count(s) == kept.to_multiset().count(s));
    assert(sorted.contains(s) <==> sorted.to_multiset().count(s) > 0);
    assert(kept.contains(s) <==> kept.to_multiset().count(s) > 0);
    if all.contains(s) && meaningful()(s) {
        all.lemma_filter_contains(meaningful(), all.index_of(s));
    }
    if kept.contains(s) {
        all.lemma_filter_contains_rev(meaningful(), s);
        all.lemma_filter_pred(meaningful(), kept.index_of(s));
    }
}

/// A sized symbol of the list is one of the module.
proof fn lemma_sized_is_kept(symbols: Seq<SymbolView>, debug: Option<Seq<SymbolView>>, s: SymbolView)
    requires
        merged(symbols, debug).contains(s),
        meaningful()(s),
        s.size > 0,
    ensures
        module_symbols(symbols, debug).contains(s),
{
    lemma_ordered(symbols, debug, s);
    let sorted = ordered(symbols, debug);
    let filled = sized(sorted);
    let i = sorted.index_of(s);
    assert(filled[i] == s);
    filled.lemma_filter_contains(covering(), i);
}

/// Every symbol with a size that either symbol table of a file names is one of the module, whichever
/// of the tables it stands in: a file that has one is never without symbols.
pub proof fn law_symbols_of_both_tables_are_kept(
    content: &[u8],
    debug_content: Option<&[u8]>,
    r: Result<ModuleSymbols, SymbolsError>,
    row: crate::elf::SymbolRowView,
)
    requires
        call_ensures(ModuleSymbols::from_elf, (content, debug_content), r),
        crate::elf::object_error(content@) is None,
        crate::elf::symbol_rows(content@).contains(row) || crate::elf::dynamic_symbol_rows(
            content@,
        ).contains(row),
        names_something(row),
        row.size > 0,
    ensures
        r matches Ok(m) && m.deep_view().contains(symbol_in(row)),
{
    let s = symbol_in(row);
    let a = crate::elf::symbol_rows(content@);
    let b = crate::elf::dynamic_symbol_rows(content@);
    let own = extracted(content@);
    if a.contains(row) {
        lemma_named(a, a.index_of(row));
        assert(own[named(a).index_of(s)] == s);
    } else {
        lemma_named(b, b.index_of(row));
        assert(own[named(a).len() + named(b).index_of(s)] == s);
    }
    let debug = debug_extracted(crate::elf::bytes_of(debug_content));
    let all = merged(own, debug);
    assert(all[own.index_of(s)] == s);
    lemma_sized_is_kept(own, debug, s);
}

/// Every symbol with a size that either symbol table of the debug file names is one of the module,
/// unless the file itself has one of that address and name, or the debug file is no object file.
pub proof fn law_symbols_of_the_debug_file_are_added(
    content: &[u8],
    debug_content: &[u8],
    r: Result<ModuleSymbols, SymbolsError>,
    row: crate::elf::SymbolRowView,
)
    requires
        call_ensures(ModuleSymbols::from_elf, (content, Some(debug_content)), r),
        crate::elf::object_error(content@) is None,
        crate::elf::object_error(debug_content@) is None,
        crate::elf::symbol_rows(debug_content@).contains(row) || crate::elf::dynamic_symbol_rows(
            debug_content@,
        ).contains(row),
        names_something(row),
        row.size > 0,
        forall|own: crate::elf::SymbolRowView|
            crate::elf::symbol_rows(content@).contains(own) || crate::elf::dynamic_symbol_rows(
                content@,
            ).contains(own) ==> (#[trigger] own.address) != row.address || own.name != row.name,
    ensures
        r matches Ok(m) && m.deep_view().contains(symbol_in(row)),
{
    let s = symbol_in(row);
    let a = crate::elf::symbol_rows(debug_content@);
    let b = crate::elf::dynamic_symbol_rows(debug_content@);
    let more = extracted(debug_content@);
    if a.contains(row) {
        lemma_named(a, a.index_of(row));
        assert(more[named(a).index_of(s)] == s);
    } else {
        lemma_named(b, b.index_of(row));
        assert(more[named(a).len() + named(b).index_of(s)] == s);
    }
    let own = extracted(content@);
    if has_twin(own, s) {
        let i = choose|i: int|
            0 <= i < own.len() && #[trigger] own[i].addr == s.addr && own[i].name == s.name;
        lemma_extracted_rev(content@, i);
    }
    let p = |s: SymbolView| !has_twin(own, s);
    more.lemma_filter_contains(p, more.index_of(s));
    let debug = Some(more);
    assert(merged(own, debug)[own.len() + more.filter(p).index_of(s)] == s);
    lemma_sized_is_kept(own, debug, s);
}

proof fn lemma_extracted_rev(bytes: Seq<u8>, i: int)
    requires
        0 <= i < extracted(bytes).len(),
    ensures
        exists|row: crate::elf::SymbolRowView|
            (crate::elf::symbol_rows(bytes).contains(row) || crate::elf::dynamic_symbol_rows(
                bytes,
            ).contains(row)) && row.name is Some && #[trigger] symbol_in(row) == extracted(bytes)[i],
{
    let a = crate::elf::symbol_rows(bytes);
    let b = crate::elf::dynamic_symbol_rows(bytes);
    if i < named(a).len() {
        lemma_named_rev(a, i);
        let k = choose|k: int|
            0 <= k < a.len() && (#[trigger] a[k]).name is Some && symbol_in(a[k]) == named(a)[i];
        assert(a.contains(a[k]));
    } else {
        let j = i - named(a).len();
        lemma_named_rev(b, j);
        let k = choose|k: int|
            0 <= k < b.len() && (#[trigger] b[k]).name is Some && symbol_in(b[k]) == named(b)[j];
        assert(b.contains(b[k]));
    }
}

/// The symbols of a module come in the order of their addresses. Each has a size, and has the address
/// and the name of a row that names something in a symbol table of the file or of its debug file.
pub proof fn law_symbols_come_from_the_tables(
    content: &[u8],
    debug_content: Option<&[u8]>,
    m: ModuleSymbols,
    i: int,
    j: int,
)
    requires
        call_ensures(ModuleSymbols::from_elf, (content, debug_content), Ok(m)),
        0 <= i <= j < m.deep_view().len(),
    ensures
        m.deep_view()[i].addr <= m.deep_view()[j].addr,
        m.deep_view()[i].size > 0,
        exists|row: crate::elf::SymbolRowView, bytes: Seq<u8>|
            #![trigger names_something(row), crate::elf::symbol_rows(bytes)]
            (bytes == content@ || Some(bytes) == crate::elf::bytes_of(debug_content)) && (
            crate::elf::symbol_rows(bytes).contains(row) || crate::elf::dynamic_symbol_rows(
                bytes,
            ).contains(row)) && names_something(row) && row.address == m.deep_view()[i].addr
                && row.name == Some(m.deep_view()[i].name) && (row.size == m.deep_view()[i].size
                || row.size == 0),
{
    let own = extracted(content@);
    let debug = debug_extracted(crate::elf::bytes_of(debug_content));
    let all = merged(own, debug);
    let sorted = ordered(own, debug);
    let filled = sized(sorted);
    let r = m.deep_view();
    assert(r == filled.filter(covering()));
    filled.lemma_filter_pred(covering(), i);
    lemma_filter_keeps_order(filled, covering(), i, j);
    let (p, q) = choose|p: int, q: int|
        0 <= p <= q < filled.len() && #[trigger] filled[p] == r[i] && #[trigger] filled[q] == r[j];
    lemma_ordered(own, debug, sorted[p]);
    assert(Symbol::ranked(sorted[p], sorted[q]));
    let s = sorted[p];
    assert(sorted.contains(s));
    assert(all.contains(s));
    let k = all.index_of(s);
    if k < own.len() {
        lemma_extracted_rev(content@, k);
        let row = choose|row: crate::elf::SymbolRowView|
            (crate::elf::symbol_rows(content@).contains(row) || crate::elf::dynamic_symbol_rows(
                content@,
            ).contains(row)) && row.name is Some && #[trigger] symbol_in(row) == own[k];
        assert(names_something(row));
        let rows = crate::elf::symbol_rows(content@);
    } else {
        let more = debug->0;
        let pred = |s: SymbolView| !has_twin(own, s);
        let kept = more.filter(pred);
        assert(kept[k - own.len()] == s);
        assert(kept.contains(s));
        more.lemma_filter_contains_rev(pred, s);
        let bytes = crate::elf::bytes_of(debug_content)->0;
        lemma_extracted_rev(bytes, more.index_of(s));
        let row = choose|row: crate::elf::SymbolRowView|
            (crate::elf::symbol_rows(bytes).contains(row) || crate::elf::dynamic_symbol_rows(
                bytes,
            ).contains(row)) && row.name is Some && #[trigger] symbol_in(row)
                == extracted(bytes)[more.index_of(s)];
        assert(names_something(row));
        let rows = crate::elf::symbol_rows(bytes);
    }
}

/// What a filter keeps stands in the order in which it stood.
proof fn lemma_filter_keeps_order<A>(s: Seq<A>, p: spec_fn(A) -> bool, i: int, j: int)
    requires
        0 <= i <= j < s.filter(p).len(),
    ensures
        exists|a: int, b: int|
            0 <= a <= b < s.len() && #[trigger] s[a] == s.filter(p)[i] && #[trigger] s[b]
                == s.filter(p)[j],
    decreases s.len(),
{
    reveal(Seq::filter);
    if s.len() > 0 {
        let rest = s.drop_last();
        if j < rest.filter(p).len() {
            lemma_filter_keeps_order(rest, p, i, j);
            let (a, b) = choose|a: int, b: int|
                0 <= a <= b < rest.len() && #[trigger] rest[a] == rest.filter(p)[i]
                    && #[trigger] rest[b] == rest.filter(p)[j];
            assert(s[a] == rest[a] && s[b] == rest[b]);
        } else {
            let last = s.len() - 1;
            assert(s[last] == s.filter(p)[j]);
            if i < rest.filter(p).len() {
                lemma_filter_keeps_order(rest, p, i, i);
                let (a, b) = choose|a: int, b: int|
                    0 <= a <= b < rest.len() && #[trigger] rest[a] == rest.filter(p)[i]
                        && #[trigger] rest[b] == rest.filter(p)[i];
                assert(s[a] == rest[a]);
                assert(0 <= a <= last);
            } else {
                assert(s[last] == s.filter(p)[i]);
            }
        }
    }
}

/// A symbol without a size reaches up to the next one and no further; the last one reaches to the end
/// of a page, beyond which at least one whole page of it lies. Symbols with a size keep it.
pub proof fn law_empty_symbols_reach_to_the_next(s: Seq<SymbolView>, i: int, j: int)
    requires
        crate::sort::in_order::<Symbol>(s),
        last_page_fits(s),
        0 <= i < s.len(),
    ensures
        sized(s).len() == s.len(),
        sized(s)[i].addr == s[i].addr && sized(s)[i].name == s[i].name,
        s[i].size > 0 ==> sized(s)[i].size == s[i].size,
        s[i].size == 0 && i < j < s.len() ==> s[i].addr + sized(s)[i].size <= s[j].addr,
        s[i].size == 0 && i + 1 < s.len() ==> s[i].addr + sized(s)[i].size == s[i + 1].addr,
        s[i].size == 0 && i + 1 == s.len() ==> (s[i].addr + sized(s)[i].size) % 4096 == 0 && 4096
            <= sized(s)[i].size < 8192,
{
    if s[i].size == 0 {
        if i + 1 < s.len() {
            assert(Symbol::ranked(s[i], s[i + 1]));
            if i < j < s.len() {
                assert(Symbol::ranked(s[i + 1], s[j]));
            }
        } else {
            assert(s.last() == s[i]);
        }
    }
}

/// The bounds of a module are the least address and the greatest end of its symbols: there are none
/// only where there are no symbols.
pub proof fn law_bounds_hold_all_symbols(m: &ModuleSymbols, r: Option<(u64, u64)>, i: int)
    requires
        call_ensures(ModuleSymbols::addr_bounds, (m,), r),
    ensures
        r is None <==> m.deep_view().len() == 0,
        r matches Some((low, high)) ==> {
            &&& 0 <= i < m.deep_view().len() ==> low <= m.deep_view()[i].addr
                && m.deep_view()[i].addr + m.deep_view()[i].size <= high
            &&& exists|k: int| 0 <= k < m.deep_view().len() && (#[trigger] m.deep_view()[k]).addr
                == low
            &&& exists|k: int|
                0 <= k < m.deep_view().len() && (#[trigger] m.deep_view()[k]).addr
                    + m.deep_view()[k].size == high
        },
{
}

/// Each symbol has a line of its own, after those of the symbols before it: its address and its size
/// in hexadecimal, and its name.
pub proof fn law_each_symbol_has_a_line(first: Seq<SymbolView>, s: SymbolView)
    ensures
        symbol_lines(Seq::empty()) == Seq::<char>::empty(),
        symbol_lines(first.push(s)).take(symbol_lines(first).len() as int) == symbol_lines(first),
        symbol_lines(first.push(s)).skip(symbol_lines(first).len() as int) == crate::numeral::hex(
            s.addr as nat,
        ) + seq![' '] + crate::numeral::hex(s.size as nat) + seq![' '] + s.name + seq!['\n'],
{
    assert(first.push(s).drop_last() =~= first);
    let line = crate::numeral::hex(s.addr as nat) + seq![' '] + crate::numeral::hex(s.size as nat)
        + seq![' '] + s.name + seq!['\n'];
    assert(symbol_lines(first.push(s)) =~= symbol_lines(first) + line);
    assert((symbol_lines(first) + line).take(symbol_lines(first).len() as int) =~= symbol_lines(
        first,
    ));
    assert((symbol_lines(first) + line).skip(symbol_lines(first).len() as int) =~= line);
}

/// The symbols of a module go to the file of its key in the folder.
pub proof fn law_symbols_go_to_the_file_of_the_key(
    m: &ModuleSymbols,
    folder: &str,
    key: &str,
    file: FileAppend,
)
    requires
        call_ensures(ModuleSymbols::save_to_keyed_file, (m, folder, key), file),
        key@.len() > 0,
        key@[0] != '/',
        folder@.len() > 0,
    ensures
        folder@.is_prefix_of(file.path@),
        file.path@.skip(file.path@.len() - key@.len() - 12) == key@ + ".symbols.map"@,
        file.text@ == symbol_lines(m.deep_view()),
{
    reveal_strlit("symbols.map");
    reveal_strlit(".symbols.map");
    let name = key@ + seq!['.'] + "symbols.map"@;
    assert(name =~= key@ + ".symbols.map"@);
    assert(file.path@.skip(file.path@.len() - name.len()) =~= name);
    assert(file.path@.subrange(0, folder@.len() as int) =~= folder@);
}

/// Whether all rows of the symbol tables of a file are two pages before the last address.
pub open spec fn rows_fit(bytes: Seq<u8>) -> bool {
    forall|row: crate::elf::SymbolRowView|
        #![trigger crate::elf::symbol_rows(bytes).contains(row)]
        #![trigger crate::elf::dynamic_symbol_rows(bytes).contains(row)]
        crate::elf::symbol_rows(bytes).contains(row) || crate::elf::dynamic_symbol_rows(
            bytes,
        ).contains(row) ==> row.address + 0x2000 <= u64::MAX
}

/// Where no symbol is in the last pages there is a result, and it is that of
/// [`ModuleSymbols::from_elf`].
pub proof fn law_trying_gives_the_symbols(
    content: &[u8],
    debug_content: Option<&[u8]>,
    r: Option<Result<ModuleSymbols, SymbolsError>>,
    plain: Result<ModuleSymbols, SymbolsError>,
)
    requires
        call_ensures(ModuleSymbols::try_from_elf, (content, debug_content), r),
        call_ensures(ModuleSymbols::from_elf, (content, debug_content), plain),
    ensures
        rows_fit(content@) && (debug_content matches Some(bytes) ==> rows_fit(bytes@)) ==> r is Some,
        crate::elf::object_error(content@) is Some ==> (r matches Some(x) && x is Err),
        r matches Some(x) ==> (x is Ok <==> plain is Ok),
        (r, plain) matches (Some(Ok(x)), Ok(y)) ==> x.deep_view() == y.deep_view(),
{
    let own = extracted(content@);
    let debug = debug_extracted(crate::elf::bytes_of(debug_content));
    let all = merged(own, debug);
    let sorted = ordered(own, debug);
    if rows_fit(content@) && (debug_content matches Some(bytes) ==> rows_fit(bytes@)) && sorted.len()
        > 0 {
        let s = sorted.last();
        lemma_ordered(own, debug, s);
        assert(sorted.contains(s));
        assert(all.contains(s));
        let k = all.index_of(s);
        if k < own.len() {
            lemma_extracted_rev(content@, k);
            let row = choose|row: crate::elf::SymbolRowView|
                (crate::elf::symbol_rows(content@).contains(row) || crate::elf::dynamic_symbol_rows(
                    content@,
                ).contains(row)) && row.name is Some && #[trigger] symbol_in(row) == own[k];
            assert(row.address + 0x2000 <= u64::MAX);
        } else {
            let more = debug->0;
            let pred = |s: SymbolView| !has_twin(own, s);
            let kept = more.filter(pred);
            assert(kept[k - own.len()] == s);
            assert(kept.contains(s));
            more.lemma_filter_contains_rev(pred, s);
            let bytes = crate::elf::bytes_of(debug_content)->0;
            lemma_extracted_rev(bytes, more.index_of(s));
            let row = choose|row: crate::elf::SymbolRowView|
                (crate::elf::symbol_rows(bytes).contains(row) || crate::elf::dynamic_symbol_rows(
                    bytes,
                ).contains(row)) && row.name is Some && #[trigger] symbol_in(row)
                    == extracted(bytes)[more.index_of(s)];
            assert(row.address + 0x2000 <= u64::MAX);
        }
        assert(page_after(s.addr) <= s.addr + 0x1000);
    }
}

/// A debug file that names only what the file names at the same addresses adds nothing.
pub proof fn law_known_symbols_are_not_added(
    content: &[u8],
    debug_content: &[u8],
    with: Result<ModuleSymbols, SymbolsError>,
    without: Result<ModuleSymbols, SymbolsError>,
)
    requires
        call_ensures(ModuleSymbols::from_elf, (content, Some(debug_content)), with),
        call_ensures(ModuleSymbols::from_elf, (content, None), without),
        forall|row: crate::elf::SymbolRowView|
            #![trigger symbol_in(row)]
            (crate::elf::symbol_rows(debug_content@).contains(row)
                || crate::elf::dynamic_symbol_rows(debug_content@).contains(row)) && row.name is Some
                ==> exists|own: crate::elf::SymbolRowView| #[trigger]
                crate::elf::symbol_rows(content@).contains(own) && own.address == row.address
                    && own.name == row.name,
    ensures
        with is Ok <==> without is Ok,
        (with, without) matches (Ok(a), Ok(b)) ==> a.deep_view() == b.deep_view(),
{
    let own = extracted(content@);
    if let Some(more) = debug_extracted(Some(debug_content@)) {
        let rows = crate::elf::symbol_rows(content@);
        let pred = |s: SymbolView| !has_twin(own, s);
        let kept = more.filter(pred);
        if kept.len() > 0 {
            let s = kept[0];
            more.lemma_filter_pred(pred, 0);
            assert(kept.contains(s));
            more.lemma_filter_contains_rev(pred, s);
            let k = more.index_of(s);
            lemma_extracted_rev(debug_content@, k);
            let row = choose|row: crate::elf::SymbolRowView|
                (crate::elf::symbol_rows(debug_content@).contains(row)
                    || crate::elf::dynamic_symbol_rows(debug_content@).contains(row)) && row.name
                    is Some && #[trigger] symbol_in(row) == extracted(debug_content@)[k];
            let twin = choose|twin: crate::elf::SymbolRowView| #[trigger]
                rows.contains(twin) && twin.address == row.address && twin.name == row.name;
            lemma_named(rows, rows.index_of(twin));
            let n = named(rows).index_of(symbol_in(twin));
            assert(own[n] == symbol_in(twin));
            assert(own[n].addr == s.addr);
            assert(has_twin(own, s));
        }
        assert(own + kept =~= own);
    }
    assert(merged(own, debug_extracted(Some(debug_content@))) == merged(own, None));
    assert(debug_extracted(None) is None);
}

} // verus!
