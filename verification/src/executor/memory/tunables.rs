//! Settings of the kernel that make measurements of memory stable.
//!
//! - Huge pages may be given to a benchmark that touches a small part of a mapping, so that its
//!   memory depends on when pages are joined.
//! - With swap, pages are evicted, so that the memory of a benchmark depends on what else is held.
//! - Dropping caches gives each run the same start.
//!
//! What is changed is noted, and is changed back afterwards.
use vstd::prelude::*;

use crate::numeral::{i64_to_decimal, parse_i32, parse_u64};
use crate::text::{chars_of, lines, split_whitespace, starts_with, str_eq, string_of, strip_prefix};

verus! {

pub const PROC_SWAPS: &'static str = "/proc/swaps";

/// The setting for huge pages.
pub const THP_ENABLED: &'static str = "/sys/kernel/mm/transparent_hugepage/enabled";

// ---------------------------------------------------------------------------------------------
// Swap areas
// ---------------------------------------------------------------------------------------------

/// A swap area that is in use, as `/proc/swaps` lists it.
#[derive(Debug, PartialEq, Eq)]
pub struct SwapArea {
    pub path: String,
    /// How much of it holds evicted pages.
    pub used_kib: u64,
    /// Areas with a higher priority are used first. It is negative where the kernel chose it.
    pub priority: i32,
}

pub struct SwapAreaView {
    pub path: Seq<char>,
    pub used_kib: u64,
    pub priority: i32,
}

impl DeepView for SwapArea {
    type V = SwapAreaView;

    open spec fn deep_view(&self) -> SwapAreaView {
        SwapAreaView { path: self.path@, used_kib: self.used_kib, priority: self.priority }
    }
}

/// The area in a row with its name, type, size, use and priority.
pub open spec fn area_in(row: Seq<char>) -> Option<SwapAreaView> {
    let columns = crate::text::words(row);
    if columns.len() < 5 {
        None
    } else {
        match (
            crate::numeral::parsed(columns[3], 0, u64::MAX as int),
            crate::numeral::parsed(columns[4], i32::MIN as int, i32::MAX as int),
        ) {
            (Some(used), Some(priority)) => Some(
                SwapAreaView {
                    path: columns[0],
                    used_kib: used as u64,
                    priority: priority as i32,
                },
            ),
            _ => None,
        }
    }
}

/// The areas in some rows. Rows without one are passed over.
pub open spec fn areas_in(rows: Seq<Seq<char>>) -> Seq<SwapAreaView>
    decreases rows.len(),
{
    if rows.len() == 0 {
        seq![]
    } else {
        let rest = areas_in(rows.drop_last());
        match area_in(rows.last()) {
            Some(area) => rest.push(area),
            None => rest,
        }
    }
}

/// The areas that `/proc/swaps` lists below its heading.
pub open spec fn listed_areas(content: Seq<char>) -> Seq<SwapAreaView> {
    let rows = crate::text::lines_of(content);
    if rows.len() == 0 {
        seq![]
    } else {
        areas_in(rows.skip(1))
    }
}

/// How much of some areas holds evicted pages.
pub open spec fn total_used(areas: Seq<SwapAreaView>) -> int
    decreases areas.len(),
{
    if areas.len() == 0 {
        0
    } else {
        total_used(areas.drop_last()) + areas.last().used_kib
    }
}

/// The areas that are not compressed memory.
pub open spec fn on_disk() -> spec_fn(SwapAreaView) -> bool {
    |area: SwapAreaView| !("/dev/zram"@.is_prefix_of(area.path))
}

/// The areas that are turned off: all on disk, if what they hold fits in memory.
pub open spec fn areas_to_disable(areas: Seq<SwapAreaView>, mem_available_kib: u64) -> Seq<
    SwapAreaView,
> {
    let candidates = areas.filter(on_disk());
    if total_used(candidates) >= mem_available_kib {
        seq![]
    } else {
        candidates
    }
}

fn read_area(row: &str) -> (r: Option<SwapArea>)
    ensures
        r.deep_view() == area_in(row@),
{
    let columns = split_whitespace(row);
    if columns.len() < 5 {
        return None;
    }
    let ghost views = columns.deep_view();
    assert(views[0] == columns@[0]@ && views[3] == columns@[3]@ && views[4] == columns@[4]@);
    let Some(used_kib) = parse_u64(columns[3].as_str()) else {
        return None;
    };
    let Some(priority) = parse_i32(columns[4].as_str()) else {
        return None;
    };
    Some(SwapArea { path: columns[0].clone(), used_kib, priority })
}

impl SwapArea {
    /// The areas that `/proc/swaps` lists.
    pub fn parse_all(content: &str) -> (r: Vec<Self>)
        ensures
            r.deep_view() == listed_areas(content@),
    {
        let rows = lines(content);
        let ghost all = rows.deep_view();
        let mut out: Vec<SwapArea> = Vec::new();
        assert(out.deep_view() =~= seq![]);
        if rows.len() == 0 {
            return out;
        }
        let ghost body = all.skip(1);
        let mut i: usize = 1;
        assert(body.take(0) =~= seq![]);
        while i < rows.len()
            invariant
                all == rows.deep_view(),
                body == all.skip(1),
                1 <= i <= rows@.len(),
                out.deep_view() == areas_in(body.take(i - 1)),
            decreases rows.len() - i,
        {
            let ghost before = out;
            assert(all[i as int] == rows@[i as int]@);
            assert(body.take(i as int).drop_last() =~= body.take(i - 1));
            assert(body.take(i as int).last() == rows@[i as int]@);
            if let Some(area) = read_area(rows[i].as_str()) {
                out.push(area);
                proof {
                    crate::list::lemma_deep_push(before, area, out);
                }
            }
            i = i + 1;
        }
        assert(body.take(body.len() as int) =~= body);
        out
    }

    /// The arguments with which `swapon` turns the area on with the priority it had. A priority that
    /// the kernel chose cannot be asked for.
    pub fn swapon_argv(&self) -> (r: Vec<String>)
        ensures
            r.deep_view() == swapon_args(self.deep_view()),
    {
        let mut argv: Vec<String> = Vec::new();
        if self.priority >= 0 {
            argv.push("-p".to_owned());
            argv.push(i64_to_decimal(self.priority as i64));
        }
        argv.push(self.path.clone());
        assert(argv.deep_view() =~= swapon_args(self.deep_view()));
        argv
    }

    /// The areas that can be turned off. Turning an area off brings its pages back into memory,
    /// where they have to fit.
    pub fn to_disable(areas: Vec<Self>, mem_available_kib: u64) -> (r: Vec<Self>)
        requires
            total_used(areas.deep_view().filter(on_disk())) <= u64::MAX,
        ensures
            r.deep_view() == areas_to_disable(areas.deep_view(), mem_available_kib),
    {
        let ghost all = areas.deep_view();
        let mut candidates: Vec<SwapArea> = Vec::new();
        let mut used_kib: u64 = 0;
        assert(all.take(0) =~= seq![]);
        assert(all.take(0).filter(on_disk()) =~= seq![]) by {
            reveal(Seq::filter);
        }
        for area in it: areas
            invariant
                all.len() == it.seq().len(),
                forall|i: int| 0 <= i < all.len() ==> all[i] == (#[trigger] it.seq()[i]).deep_view(),
                total_used(all.filter(on_disk())) <= u64::MAX,
                candidates.deep_view() == all.take(it.index()).filter(on_disk()),
                used_kib == total_used(candidates.deep_view()),
        {
            let ghost n = it.index();
            let ghost before = candidates;
            assert(all[n] == area.deep_view());
            proof {
                crate::list::lemma_take_push(all, n);
                crate::list::lemma_filter_push(all.take(n), all[n], on_disk());
                lemma_total_used_of_prefix(all, n + 1);
            }
            if !area.is_zram() {
                let used: u64 = area.used_kib;
                candidates.push(area);
                proof {
                    crate::list::lemma_deep_push(before, area, candidates);
                    assert(candidates.deep_view().drop_last() =~= before.deep_view());
                }
                used_kib = used_kib + used;
            }
        }
        assert(all.take(all.len() as int) =~= all);
        if used_kib >= mem_available_kib {
            let none: Vec<SwapArea> = Vec::new();
            assert(none.deep_view() =~= seq![]);
            return none;
        }
        candidates
    }

    /// Whether the area is compressed memory, whose size would be lost if it were turned off.
    pub fn is_zram(&self) -> (r: bool)
        ensures
            r == !on_disk()(self.deep_view()),
    {
        starts_with(self.path.as_str(), "/dev/zram")
    }
}

/// The arguments with which `swapon` turns an area on.
pub open spec fn swapon_args(area: SwapAreaView) -> Seq<Seq<char>> {
    if area.priority >= 0 {
        seq!["-p"@, crate::numeral::signed_decimal(area.priority as int), area.path]
    } else {
        seq![area.path]
    }
}

proof fn lemma_total_used_of_prefix(areas: Seq<SwapAreaView>, n: int)
    requires
        0 <= n <= areas.len(),
    ensures
        0 <= total_used(areas.take(n).filter(on_disk())) <= total_used(areas.filter(on_disk())),
    decreases areas.len() - n,
{
    if n < areas.len() {
        lemma_total_used_of_prefix(areas, n + 1);
        crate::list::lemma_take_push(areas, n);
        crate::list::lemma_filter_push(areas.take(n), areas[n], on_disk());
        let kept = areas.take(n).filter(on_disk());
        assert(kept.push(areas[n]).drop_last() =~= kept);
        lemma_total_used_is_positive(kept);
    } else {
        assert(areas.take(n) =~= areas);
        lemma_total_used_is_positive(areas.filter(on_disk()));
    }
}

proof fn lemma_total_used_is_positive(areas: Seq<SwapAreaView>)
    ensures
        total_used(areas) >= 0,
    decreases areas.len(),
{
    if areas.len() > 0 {
        lemma_total_used_is_positive(areas.drop_last());
    }
}

/// What is turned off fits in memory, and is never compressed memory.
pub proof fn law_disabled_swap_fits(areas: Seq<SwapAreaView>, mem_available_kib: u64)
    ensures
        areas_to_disable(areas, mem_available_kib).len() > 0 ==> total_used(
            areas_to_disable(areas, mem_available_kib),
        ) < mem_available_kib,
        forall|i: int|
            0 <= i < areas_to_disable(areas, mem_available_kib).len() ==> on_disk()(
                #[trigger] areas_to_disable(areas, mem_available_kib)[i],
            ),
{
    let off = areas_to_disable(areas, mem_available_kib);
    assert forall|i: int| 0 <= i < off.len() implies on_disk()(#[trigger] off[i]) by {
        areas.lemma_filter_pred(on_disk(), i);
    }
}

/// All swap that fits in memory is turned off: where the areas that are not compressed memory hold
/// less than what is available, each of them is turned off, in the order of the list, and nothing
/// else is. Where they hold more, none is.
pub proof fn law_swap_that_fits_is_disabled(
    areas: Vec<SwapArea>,
    mem_available_kib: u64,
    off: Vec<SwapArea>,
    area: SwapAreaView,
)
    requires
        call_ensures(SwapArea::to_disable, (areas, mem_available_kib), off),
    ensures
        ({
            let candidates = areas.deep_view().filter(
                |a: SwapAreaView| !"/dev/zram"@.is_prefix_of(a.path),
            );
            &&& total_used(candidates) < mem_available_kib ==> off.deep_view() == candidates
            &&& total_used(candidates) < mem_available_kib ==> (off.deep_view().contains(area)
                <==> areas.deep_view().contains(area) && !"/dev/zram"@.is_prefix_of(area.path))
            &&& total_used(candidates) >= mem_available_kib ==> off@.len() == 0
        }),
{
    let all = areas.deep_view();
    let p = |a: SwapAreaView| !"/dev/zram"@.is_prefix_of(a.path);
    assert(p =~= on_disk());
    assert(off.deep_view().len() == off@.len());
    if all.contains(area) && on_disk()(area) {
        all.lemma_filter_contains(on_disk(), all.index_of(area));
    }
    if all.filter(on_disk()).contains(area) {
        all.lemma_filter_contains_rev(on_disk(), area);
    }
}

/// What areas hold together is the sum of what each holds.
pub proof fn law_swap_use_adds_up(first: Seq<SwapAreaView>, area: SwapAreaView)
    ensures
        total_used(Seq::empty()) == 0,
        total_used(first.push(area)) == total_used(first) + area.used_kib,
        total_used(seq![area] + first) == area.used_kib + total_used(first),
    decreases first.len(),
{
    assert(first.push(area).drop_last() =~= first);
    let more = seq![area] + first;
    if first.len() > 0 {
        law_swap_use_adds_up(first.drop_last(), area);
        assert(more.drop_last() =~= seq![area] + first.drop_last());
    } else {
        assert(more =~= seq![area]);
        assert(more.drop_last() =~= Seq::<SwapAreaView>::empty());
    }
}

/// Each line of `/proc/swaps` below its heading that has five columns, the last two of which are
/// numbers, is an area: its path is the first column, its use the fourth and its priority the
/// fifth. The areas come in the order of their lines, and from no other line.
pub proof fn law_swap_areas_are_listed(content: &str, areas: Vec<SwapArea>, i: int)
    requires
        call_ensures(SwapArea::parse_all, (content,), areas),
    ensures
        ({
            let rows = crate::text::lines_of(content@);
            let columns = crate::text::words(rows[i]);
            let used = crate::numeral::parsed(columns[3], 0, u64::MAX as int);
            let priority = crate::numeral::parsed(columns[4], i32::MIN as int, i32::MAX as int);
            &&& areas@.len() <= rows.len()
            &&& rows.len() > 0 ==> areas@.len() < rows.len()
            &&& 1 <= i < rows.len() && columns.len() >= 5 && used is Some && priority is Some
                ==> areas.deep_view().contains(
                SwapAreaView {
                    path: columns[0],
                    used_kib: used->0 as u64,
                    priority: priority->0 as i32,
                },
            )
        }),
        0 <= i < areas@.len() ==> exists|j: int|
            1 <= j < crate::text::lines_of(content@).len() && crate::text::words(
                #[trigger] crate::text::lines_of(content@)[j],
            ).len() >= 5 && crate::text::words(crate::text::lines_of(content@)[j])[0]
                == areas.deep_view()[i].path,
{
    let rows = crate::text::lines_of(content@);
    assert(areas.deep_view().len() == areas@.len());
    if rows.len() > 0 {
        let body = rows.skip(1);
        lemma_areas_in(body);
        if 1 <= i < rows.len() {
            assert(body[i - 1] == rows[i]);
        }
        if 0 <= i < areas@.len() {
            let k = choose|k: int|
                0 <= k < body.len() && area_in(#[trigger] body[k]) == Some(areas_in(body)[i]);
            assert(rows[k + 1] == body[k]);
        }
    }
}

proof fn lemma_areas_in(rows: Seq<Seq<char>>)
    ensures
        areas_in(rows).len() <= rows.len(),
        forall|i: int|
            0 <= i < rows.len() && area_in(#[trigger] rows[i]) is Some ==> areas_in(rows).contains(
                area_in(rows[i])->0,
            ),
        forall|j: int|
            0 <= j < areas_in(rows).len() ==> exists|i: int|
                0 <= i < rows.len() && area_in(#[trigger] rows[i]) == Some(
                    #[trigger] areas_in(rows)[j],
                ),
    decreases rows.len(),
{
    if rows.len() > 0 {
        let rest = rows.drop_last();
        lemma_areas_in(rest);
        let before = areas_in(rest);
        let after = areas_in(rows);
        assert forall|i: int|
            0 <= i < rows.len() && area_in(#[trigger] rows[i]) is Some implies after.contains(
            area_in(rows[i])->0,
        ) by {
            if i < rows.len() - 1 {
                assert(rest[i] == rows[i]);
                let k = before.index_of(area_in(rows[i])->0);
                assert(after[k] == before[k]);
            } else {
                assert(after.last() == area_in(rows[i])->0);
            }
        }
        assert forall|j: int| 0 <= j < after.len() implies exists|i: int|
            0 <= i < rows.len() && area_in(#[trigger] rows[i]) == Some(#[trigger] after[j]) by {
            if j < before.len() {
                let i = choose|i: int|
                    0 <= i < rest.len() && area_in(#[trigger] rest[i]) == Some(before[j]);
                assert(rows[i] == rest[i]);
            } else {
                assert(rows[rows.len() - 1] == rows.last());
            }
        }
    }
}

// ---------------------------------------------------------------------------------------------
// Memory and huge pages
// ---------------------------------------------------------------------------------------------

/// What follows `MemAvailable:` in the first line that begins with it.
pub open spec fn available_line(rows: Seq<Seq<char>>) -> Option<Seq<char>>
    decreases rows.len(),
{
    if rows.len() == 0 {
        None
    } else {
        match crate::text::stripped_prefix(rows[0], "MemAvailable:"@) {
            Some(rest) => Some(rest),
            None => available_line(rows.skip(1)),
        }
    }
}

/// The memory that is available, in what `/proc/meminfo` holds.
pub open spec fn available_memory(meminfo: Seq<char>) -> Option<int> {
    match available_line(crate::text::lines_of(meminfo)) {
        Some(rest) => if crate::text::words(rest).len() > 0 {
            crate::numeral::parsed(crate::text::words(rest)[0], 0, u64::MAX as int)
        } else {
            None
        },
        None => None,
    }
}

/// The memory that is available, in what `/proc/meminfo` holds.
pub fn mem_available_kib(meminfo: &str) -> (r: Option<u64>)
    ensures
        match r {
            Some(kib) => available_memory(meminfo@) == Some(kib as int),
            None => available_memory(meminfo@) is None,
        },
{
    let rows = lines(meminfo);
    let ghost all = rows.deep_view();
    let mut i: usize = 0;
    assert(all.skip(0) =~= all);
    while i < rows.len()
        invariant
            all == rows.deep_view(),
            all == crate::text::lines_of(meminfo@),
            i <= rows@.len(),
            available_line(all) == available_line(all.skip(i as int)),
        decreases rows.len() - i,
    {
        assert(all.skip(i as int)[0] == rows@[i as int]@);
        assert(all.skip(i as int).skip(1) =~= all.skip(i + 1));
        if let Some(rest) = strip_prefix(rows[i].as_str(), "MemAvailable:") {
            let columns = split_whitespace(rest.as_str());
            if columns.len() == 0 {
                return None;
            }
            assert(columns.deep_view()[0] == columns@[0]@);
            return parse_u64(columns[0].as_str());
        }
        i = i + 1;
    }
    None
}

/// Whether a token is the mode in use, which stands in square brackets.
pub open spec fn is_bracketed(token: Seq<char>) -> bool {
    token.len() >= 2 && token[0] == '[' && token.last() == ']'
}

/// The first mode in square brackets.
pub open spec fn active_mode(tokens: Seq<Seq<char>>) -> Option<Seq<char>>
    decreases tokens.len(),
{
    if tokens.len() == 0 {
        None
    } else if is_bracketed(tokens[0]) {
        Some(tokens[0].subrange(1, tokens[0].len() - 1))
    } else {
        active_mode(tokens.skip(1))
    }
}

/// The mode in use in what the setting for huge pages holds, such as `always [madvise] never`.
pub fn read_thp_mode(content: &str) -> (r: Option<String>)
    ensures
        r.deep_view() == active_mode(crate::text::words(content@)),
{
    let tokens = split_whitespace(content);
    let ghost all = tokens.deep_view();
    let mut i: usize = 0;
    assert(all.skip(0) =~= all);
    while i < tokens.len()
        invariant
            all == tokens.deep_view(),
            all == crate::text::words(content@),
            i <= tokens@.len(),
            active_mode(all) == active_mode(all.skip(i as int)),
        decreases tokens.len() - i,
    {
        assert(all.skip(i as int)[0] == tokens@[i as int]@);
        assert(all.skip(i as int).skip(1) =~= all.skip(i + 1));
        let cs = chars_of(tokens[i].as_str());
        let n: usize = cs.len();
        if n >= 2 && cs[0] == '[' && cs[n - 1] == ']' {
            let mode = string_of(&cs, 1, n - 1);
            assert(mode@ =~= cs@.subrange(1, n - 1));
            return Some(mode);
        }
        i = i + 1;
    }
    None
}

// ---------------------------------------------------------------------------------------------
// Applying and restoring
// ---------------------------------------------------------------------------------------------

/// A file that only the superuser may write, and what is written to it.
#[derive(Debug)]
pub struct RootWrite {
    pub path: String,
    pub value: String,
}

impl DeepView for RootWrite {
    type V = (Seq<char>, Seq<char>);

    open spec fn deep_view(&self) -> (Seq<char>, Seq<char>) {
        (self.path@, self.value@)
    }
}

/// The arguments with which `sh` writes a value to a file.
pub open spec fn root_write_args(path: Seq<char>, value: Seq<char>) -> Seq<Seq<char>> {
    seq!["-c"@, "printf '%s' "@ + value + " > "@ + path]
}

/// The arguments with which `sh`, run with privileges, writes a value to a file.
pub fn write_root_file(path: &str, value: &str) -> (r: Vec<String>)
    ensures
        r.deep_view() == root_write_args(path@, value@),
{
    let mut script = "printf '%s' ".to_owned();
    script.append(value);
    script.append(" > ");
    script.append(path);
    let args = vec!["-c".to_owned(), script];
    assert(args.deep_view() =~= root_write_args(path@, value@));
    args
}

/// What is to be changed before a run.
#[derive(Debug)]
pub struct TunablePlan {
    /// The mode of huge pages to be set, and the mode that was in use, if it is another.
    pub thp: Option<(RootWrite, String)>,
    /// The swap areas to be turned off.
    pub swapoff: Vec<SwapArea>,
    /// How caches are dropped, once what is not stored yet has been stored.
    pub drop_caches: RootWrite,
}

/// The settings that were changed.
#[derive(Debug)]
pub struct MemoryTunables {
    /// The settings for huge pages, with the modes that were in use.
    pub thp: Vec<RootWrite>,
    /// The swap areas that were turned off.
    pub swap: Vec<SwapArea>,
}

/// Something to be done to change settings back.
#[derive(Debug)]
pub enum RestoreStep {
    /// `swapon` is to be run with these arguments.
    SwapOn(Vec<String>),
    Write(RootWrite),
}

pub enum RestoreStepView {
    SwapOn(Seq<Seq<char>>),
    Write((Seq<char>, Seq<char>)),
}

impl DeepView for RestoreStep {
    type V = RestoreStepView;

    open spec fn deep_view(&self) -> RestoreStepView {
        match *self {
            RestoreStep::SwapOn(args) => RestoreStepView::SwapOn(args.deep_view()),
            RestoreStep::Write(write) => RestoreStepView::Write(write.deep_view()),
        }
    }
}

/// The mode of huge pages that was in use, if it is not `value` and can be told.
pub open spec fn replaced_mode(content: Option<Seq<char>>, value: Seq<char>) -> Option<Seq<char>> {
    match content {
        Some(text) => match active_mode(crate::text::words(text)) {
            Some(active) => if active == value {
                None
            } else {
                Some(active)
            },
            None => None,
        },
        None => None,
    }
}

/// The swap areas to be turned off, where the lists can be read.
pub open spec fn swap_to_disable(swaps: Option<Seq<char>>, meminfo: Option<Seq<char>>) -> Seq<
    SwapAreaView,
> {
    match (swaps, meminfo) {
        (Some(s), Some(m)) => match available_memory(m) {
            Some(kib) => areas_to_disable(listed_areas(s), kib as u64),
            None => seq![],
        },
        _ => seq![],
    }
}

/// Whether the use of the swap areas on disk can be added up.
pub open spec fn swap_fits(swaps: Option<Seq<char>>) -> bool {
    swaps matches Some(s) ==> total_used(listed_areas(s).filter(on_disk())) <= u64::MAX
}

impl MemoryTunables {
    /// What is to be changed before a run, if privileges can be had without asking for a password.
    /// The other arguments are what the setting for huge pages, `/proc/swaps` and `/proc/meminfo`
    /// hold, where they can be read.
    pub fn plan(
        can_elevate: bool,
        thp: Option<&str>,
        swaps: Option<&str>,
        meminfo: Option<&str>,
    ) -> (r: Option<TunablePlan>)
        requires
            swap_fits(crate::text::text_of(swaps)),
        ensures
            r is Some <==> can_elevate,
            r matches Some(plan) ==> {
                &&& match replaced_mode(crate::text::text_of(thp), "never"@) {
                    Some(active) => plan.thp matches Some((write, previous)) && write.deep_view()
                        == (THP_ENABLED@, "never"@) && previous@ == active,
                    None => plan.thp is None,
                }
                &&& plan.swapoff.deep_view() == swap_to_disable(
                    crate::text::text_of(swaps),
                    crate::text::text_of(meminfo),
                )
                &&& plan.drop_caches.deep_view() == ("/proc/sys/vm/drop_caches"@, "3"@)
            },
    {
        if !can_elevate {
            return None;
        }
        let thp = Self::set_thp_enabled(thp, "never");
        let swapoff = Self::disable_swap(swaps, meminfo);
        let drop_caches = RootWrite {
            path: "/proc/sys/vm/drop_caches".to_owned(),
            value: "3".to_owned(),
        };
        Some(TunablePlan { thp, swapoff, drop_caches })
    }

    /// The mode of huge pages to be set, and the mode that is in use, if it is another.
    fn set_thp_enabled(content: Option<&str>, value: &str) -> (r: Option<(RootWrite, String)>)
        ensures
            match replaced_mode(crate::text::text_of(content), value@) {
                Some(active) => r matches Some((write, previous)) && write.deep_view() == (
                    THP_ENABLED@,
                    value@,
                ) && previous@ == active,
                None => r is None,
            },
    {
        let Some(content) = content else {
            return None;
        };
        let Some(active) = read_thp_mode(content) else {
            return None;
        };
        if str_eq(active.as_str(), value) {
            return None;
        }
        Some((RootWrite { path: THP_ENABLED.to_owned(), value: value.to_owned() }, active))
    }

    /// The swap areas to be turned off.
    fn disable_swap(swaps: Option<&str>, meminfo: Option<&str>) -> (r: Vec<SwapArea>)
        requires
            swap_fits(crate::text::text_of(swaps)),
        ensures
            r.deep_view() == swap_to_disable(
                crate::text::text_of(swaps),
                crate::text::text_of(meminfo),
            ),
    {
        let none: Vec<SwapArea> = Vec::new();
        assert(none.deep_view() =~= seq![]);
        let Some(swaps) = swaps else {
            return none;
        };
        let areas = SwapArea::parse_all(swaps);
        let Some(meminfo) = meminfo else {
            return none;
        };
        let Some(kib) = mem_available_kib(meminfo) else {
            return none;
        };
        SwapArea::to_disable(areas, kib)
    }

    /// Notes what was changed: the mode of huge pages, where it was written, and the swap areas that
    /// were turned off. `swapped_off` tells of each area of the plan whether it was.
    pub fn apply(plan: TunablePlan, thp_written: bool, swapped_off: &Vec<bool>) -> (r: Self)
        requires
            swapped_off@.len() == plan.swapoff@.len(),
        ensures
            match plan.thp {
                Some((write, previous)) => r.thp.deep_view() == (if thp_written {
                    seq![(write.path@, previous@)]
                } else {
                    seq![]
                }),
                None => r.thp.deep_view() == Seq::<(Seq<char>, Seq<char>)>::empty(),
            },
            r.swap.deep_view() == turned_off(plan.swapoff.deep_view(), swapped_off@),
    {
        let mut thp: Vec<RootWrite> = Vec::new();
        let ghost planned = plan.thp;
        assert(thp.deep_view() =~= seq![]);
        if let Some((write, previous)) = plan.thp {
            if thp_written {
                thp.push(RootWrite { path: write.path, value: previous });
                assert(thp.deep_view() =~= seq![(write.path@, previous@)]);
            }
        }
        let mut swap: Vec<SwapArea> = Vec::new();
        let areas = plan.swapoff;
        let ghost all = areas.deep_view();
        assert(all.take(0) =~= seq![]);
        let mut i: usize = 0;
        for area in it: areas
            invariant
                all.len() == it.seq().len(),
                all.len() == swapped_off@.len(),
                i == it.index(),
                forall|j: int| 0 <= j < all.len() ==> all[j] == (#[trigger] it.seq()[j]).deep_view(),
                swap.deep_view() == turned_off(all.take(it.index()), swapped_off@),
        {
            let ghost n = it.index();
            let ghost before = swap;
            assert(swapped_off.len() == swapped_off@.len());
            assert(all[n] == area.deep_view());
            assert(all.take(n + 1).drop_last() =~= all.take(n));
            if swapped_off[i] {
                swap.push(area);
                proof {
                    crate::list::lemma_deep_push(before, area, swap);
                }
            }
            i = i + 1;
        }
        assert(all.take(all.len() as int) =~= all);
        MemoryTunables { thp, swap }
    }

    /// What is to be done to change the settings back. Swap areas come first, in the order in which
    /// they were listed, so that those whose priority the kernel chooses keep their order.
    pub fn restore(&self) -> (r: Vec<RestoreStep>)
        ensures
            r.deep_view() == restore_steps(self.swap.deep_view(), self.thp.deep_view()),
    {
        let mut steps: Vec<RestoreStep> = Vec::new();
        let ghost swap = self.swap.deep_view();
        let ghost thp = self.thp.deep_view();
        let ghost ons = Seq::new(
            swap.len(),
            |i: int| RestoreStepView::SwapOn(swapon_args(swap[i])),
        );
        let ghost writes = Seq::new(thp.len(), |i: int| RestoreStepView::Write(thp[i]));
        let mut i: usize = 0;
        assert(steps.deep_view() =~= ons.take(0));
        while i < self.swap.len()
            invariant
                swap == self.swap.deep_view(),
                ons.len() == swap.len(),
                forall|j: int|
                    0 <= j < ons.len() ==> #[trigger] ons[j] == RestoreStepView::SwapOn(
                        swapon_args(swap[j]),
                    ),
                i <= self.swap@.len(),
                steps.deep_view() == ons.take(i as int),
            decreases self.swap.len() - i,
        {
            let ghost before = steps;
            steps.push(RestoreStep::SwapOn(self.swap[i].swapon_argv()));
            proof {
                crate::list::lemma_deep_push(before, steps@.last(), steps);
                crate::list::lemma_take_push(ons, i as int);
            }
            i = i + 1;
        }
        assert(ons.take(ons.len() as int) =~= ons);
        let mut j: usize = 0;
        assert(ons + writes.take(0) =~= ons);
        while j < self.thp.len()
            invariant
                thp == self.thp.deep_view(),
                writes.len() == thp.len(),
                forall|k: int|
                    0 <= k < writes.len() ==> #[trigger] writes[k] == RestoreStepView::Write(thp[k]),
                j <= self.thp@.len(),
                steps.deep_view() == ons + writes.take(j as int),
            decreases self.thp.len() - j,
        {
            let ghost before = steps;
            steps.push(
                RestoreStep::Write(
                    RootWrite {
                        path: self.thp[j].path.clone(),
                        value: self.thp[j].value.clone(),
                    },
                ),
            );
            proof {
                crate::list::lemma_deep_push(before, steps@.last(), steps);
                crate::list::lemma_take_push(writes, j as int);
                assert(steps.deep_view() =~= ons + writes.take(j + 1));
            }
            j = j + 1;
        }
        assert(writes.take(writes.len() as int) =~= writes);
        assert(steps.deep_view() =~= restore_steps(swap, thp));
        steps
    }
}

/// The areas that were turned off.
pub open spec fn turned_off(areas: Seq<SwapAreaView>, swapped_off: Seq<bool>) -> Seq<SwapAreaView>
    decreases areas.len(),
{
    if areas.len() == 0 {
        seq![]
    } else {
        let rest = turned_off(areas.drop_last(), swapped_off);
        if swapped_off[areas.len() - 1] {
            rest.push(areas.last())
        } else {
            rest
        }
    }
}

/// What is to be done to change settings back.
pub open spec fn restore_steps(
    swap: Seq<SwapAreaView>,
    thp: Seq<(Seq<char>, Seq<char>)>,
) -> Seq<RestoreStepView> {
    Seq::new(swap.len(), |i: int| RestoreStepView::SwapOn(swapon_args(swap[i]))) + Seq::new(
        thp.len(),
        |i: int| RestoreStepView::Write(thp[i]),
    )
}

/// Nothing is done to change settings back where none was changed.
pub proof fn law_nothing_changed_nothing_restored()
    ensures
        restore_steps(Seq::empty(), Seq::empty()) == Seq::<RestoreStepView>::empty(),
{
    assert(restore_steps(Seq::empty(), Seq::empty()) =~= Seq::<RestoreStepView>::empty());
}

/// The settings of a host: the mode of huge pages, where it can be told, and the priorities of the
/// swap areas in use. A priority that the kernel chose is not a setting.
#[verifier::ext_equal]
pub struct HostView {
    pub thp: Option<Seq<char>>,
    pub swap: Map<Seq<char>, Option<int>>,
}

/// The priority of an area, unless the kernel chose it.
pub open spec fn set_priority(area: SwapAreaView) -> Option<int> {
    if area.priority >= 0 {
        Some(area.priority as int)
    } else {
        None
    }
}

/// The swap areas in use.
pub open spec fn areas_in_use(areas: Seq<SwapAreaView>) -> Map<Seq<char>, Option<int>>
    decreases areas.len(),
{
    if areas.len() == 0 {
        Map::empty()
    } else {
        areas_in_use(areas.drop_last()).insert(areas.last().path, set_priority(areas.last()))
    }
}

/// The settings that the two files show.
pub open spec fn host_of(thp: Option<Seq<char>>, swaps: Option<Seq<char>>) -> HostView {
    HostView {
        thp: match thp {
            Some(text) => active_mode(crate::text::words(text)),
            None => None,
        },
        swap: match swaps {
            Some(text) => areas_in_use(listed_areas(text)),
            None => Map::empty(),
        },
    }
}

/// The swap areas in use, once some are turned off.
pub open spec fn without_areas(
    swap: Map<Seq<char>, Option<int>>,
    off: Seq<SwapAreaView>,
) -> Map<Seq<char>, Option<int>>
    decreases off.len(),
{
    if off.len() == 0 {
        swap
    } else {
        without_areas(swap, off.drop_last()).remove(off.last().path)
    }
}

/// The settings after a step: `swapon` turns an area on, with a priority where one is given, and a
/// write changes the mode of huge pages.
pub open spec fn after_step(host: HostView, step: RestoreStepView) -> HostView {
    match step {
        RestoreStepView::SwapOn(args) => HostView {
            swap: if args.len() == 3 {
                host.swap.insert(args[2], crate::numeral::numeral_value(args[1], true))
            } else {
                host.swap.insert(args[0], None)
            },
            ..host
        },
        RestoreStepView::Write((path, value)) => if path == THP_ENABLED@ {
            HostView { thp: Some(value), ..host }
        } else {
            host
        },
    }
}

/// The settings after some steps.
pub open spec fn after_steps(host: HostView, steps: Seq<RestoreStepView>) -> HostView
    decreases steps.len(),
{
    if steps.len() == 0 {
        host
    } else {
        after_step(after_steps(host, steps.drop_last()), steps.last())
    }
}

/// The mode of huge pages that is noted, where it was changed.
pub open spec fn noted_mode(thp: Option<Seq<char>>, thp_written: bool) -> Seq<
    (Seq<char>, Seq<char>),
> {
    match replaced_mode(thp, "never"@) {
        Some(active) => if thp_written {
            seq![(THP_ENABLED@, active)]
        } else {
            seq![]
        },
        None => seq![],
    }
}

/// Whether no two areas have the same path.
pub open spec fn distinct_paths(areas: Seq<SwapAreaView>) -> bool {
    forall|i: int, j: int|
        0 <= i < j < areas.len() ==> (#[trigger] areas[i]).path != (#[trigger] areas[j]).path
}

/// The areas in use are those of the list, with their priorities.
proof fn lemma_areas_in_use(areas: Seq<SwapAreaView>, area: SwapAreaView)
    requires
        distinct_paths(areas),
        areas.contains(area),
    ensures
        areas_in_use(areas).contains_key(area.path),
        areas_in_use(areas)[area.path] == set_priority(area),
    decreases areas.len(),
{
    let i = choose|i: int| 0 <= i < areas.len() && areas[i] == area;
    let rest = areas.drop_last();
    if i < areas.len() - 1 {
        assert(rest[i] == area);
        assert(areas[i].path != areas[areas.len() - 1].path);
        lemma_areas_in_use(rest, area);
    }
}

/// Turning areas off and on again in whatever order leaves those in use that were.
proof fn lemma_swap_is_restored(
    host: HostView,
    all: Seq<SwapAreaView>,
    off: Seq<SwapAreaView>,
    done: Seq<SwapAreaView>,
)
    requires
        distinct_paths(all),
        host.swap == areas_in_use(all),
        forall|i: int| 0 <= i < off.len() ==> all.contains(#[trigger] off[i]),
        forall|i: int| 0 <= i < done.len() ==> off.contains(#[trigger] done[i]),
    ensures
        ({
            let host_off = HostView { swap: without_areas(host.swap, off), ..host };
            let r = after_steps(
                host_off,
                Seq::new(done.len(), |i: int| RestoreStepView::SwapOn(swapon_args(done[i]))),
            );
            &&& r.thp == host.thp
            &&& forall|path: Seq<char>| #[trigger]
                r.swap.contains_key(path) ==> host.swap.contains_key(path) && r.swap[path]
                    == host.swap[path]
            &&& forall|path: Seq<char>|
                host_off.swap.contains_key(path) ==> #[trigger] r.swap.contains_key(path)
            &&& forall|i: int| 0 <= i < done.len() ==> r.swap.contains_key(#[trigger] done[i].path)
        }),
    decreases done.len(),
{
    let host_off = HostView { swap: without_areas(host.swap, off), ..host };
    let steps = Seq::new(done.len(), |i: int| RestoreStepView::SwapOn(swapon_args(done[i])));
    lemma_without_areas(host.swap, off);
    if done.len() > 0 {
        let before = done.drop_last();
        let area = done.last();
        assert forall|i: int| 0 <= i < before.len() implies off.contains(#[trigger] before[i]) by {
            assert(before[i] == done[i]);
        }
        lemma_swap_is_restored(host, all, off, before);
        assert(steps.drop_last() =~= Seq::new(
            before.len(),
            |i: int| RestoreStepView::SwapOn(swapon_args(before[i])),
        ));
        assert(off.contains(done[done.len() - 1]));
        let k = choose|k: int| 0 <= k < off.len() && off[k] == area;
        assert(all.contains(off[k]));
        lemma_areas_in_use(all, area);
        crate::numeral::law_signed_decimal_reads_back(area.priority as int);
        let r0 = after_steps(host_off, steps.drop_last());
        let r = after_steps(host_off, steps);
        assert(r == after_step(r0, RestoreStepView::SwapOn(swapon_args(area))));
        assert(r.swap == r0.swap.insert(area.path, set_priority(area)));
        assert forall|i: int| 0 <= i < done.len() implies r.swap.contains_key(
            #[trigger] done[i].path,
        ) by {
            if i < done.len() - 1 {
                assert(before[i] == done[i]);
                assert(r0.swap.contains_key(before[i].path));
            }
        }
    }
}

/// Turning areas off leaves all others as they were.
proof fn lemma_without_areas(swap: Map<Seq<char>, Option<int>>, off: Seq<SwapAreaView>)
    ensures
        forall|path: Seq<char>| #[trigger]
            without_areas(swap, off).contains_key(path) ==> swap.contains_key(path)
                && without_areas(swap, off)[path] == swap[path],
        forall|path: Seq<char>| #[trigger]
            swap.contains_key(path) && !without_areas(swap, off).contains_key(path) ==> exists|
                i: int,
            |
                0 <= i < off.len() && (#[trigger] off[i]).path == path,
    decreases off.len(),
{
    if off.len() > 0 {
        lemma_without_areas(swap, off.drop_last());
        assert forall|path: Seq<char>| #[trigger]
            without_areas(swap, off).contains_key(path) implies swap.contains_key(path)
            && without_areas(swap, off)[path] == swap[path] by {
            assert(without_areas(swap, off.drop_last()).contains_key(path));
        }
        assert forall|path: Seq<char>| #[trigger]
            swap.contains_key(path) && !without_areas(swap, off).contains_key(
                path,
            ) implies exists|i: int| 0 <= i < off.len() && (#[trigger] off[i]).path == path by {
            if path == off.last().path {
                assert(off[off.len() - 1].path == path);
            } else {
                let rest = off.drop_last();
                assert(!without_areas(swap, rest).contains_key(path));
                let i = choose|i: int| 0 <= i < rest.len() && (#[trigger] rest[i]).path == path;
                assert(off[i] == rest[i]);
            }
        }
    }
}

/// The areas that were turned off are among those that were to be.
proof fn lemma_turned_off(areas: Seq<SwapAreaView>, swapped_off: Seq<bool>)
    ensures
        forall|i: int|
            0 <= i < turned_off(areas, swapped_off).len() ==> areas.contains(
                #[trigger] turned_off(areas, swapped_off)[i],
            ),
    decreases areas.len(),
{
    if areas.len() > 0 {
        let rest = areas.drop_last();
        lemma_turned_off(rest, swapped_off);
        let off = turned_off(areas, swapped_off);
        assert forall|i: int| 0 <= i < off.len() implies areas.contains(#[trigger] off[i]) by {
            let before = turned_off(rest, swapped_off);
            if i < before.len() {
                assert(off[i] == before[i]);
                assert(rest.contains(before[i]));
                let k = choose|k: int| 0 <= k < rest.len() && rest[k] == before[i];
                assert(areas[k] == off[i]);
            } else {
                assert(off[i] == areas[areas.len() - 1]);
            }
        }
    }
}

/// After a run, the host is left as it was: whatever was changed before it is changed back. The
/// arguments are what the setting for huge pages, `/proc/swaps` and `/proc/meminfo` held before the
/// run, whether the mode was written, and which of the areas that were to be turned off were.
pub proof fn law_host_is_left_as_it_was(
    thp: Option<Seq<char>>,
    swaps: Option<Seq<char>>,
    meminfo: Option<Seq<char>>,
    thp_written: bool,
    swapped_off: Seq<bool>,
)
    requires
        swaps matches Some(text) ==> distinct_paths(listed_areas(text)),
    ensures
        ({
            let host = host_of(thp, swaps);
            let off = turned_off(swap_to_disable(swaps, meminfo), swapped_off);
            let noted = noted_mode(thp, thp_written);
            let changed = HostView {
                thp: if noted.len() > 0 {
                    Some("never"@)
                } else {
                    host.thp
                },
                swap: without_areas(host.swap, off),
            };
            after_steps(changed, restore_steps(off, noted)) == host
        }),
{
    let host = host_of(thp, swaps);
    let disabled = swap_to_disable(swaps, meminfo);
    let off = turned_off(disabled, swapped_off);
    let noted = noted_mode(thp, thp_written);
    let all = match swaps {
        Some(text) => listed_areas(text),
        None => seq![],
    };
    let changed = HostView {
        thp: if noted.len() > 0 {
            Some("never"@)
        } else {
            host.thp
        },
        swap: without_areas(host.swap, off),
    };
    let ons = Seq::new(off.len(), |i: int| RestoreStepView::SwapOn(swapon_args(off[i])));
    let steps = restore_steps(off, noted);
    assert forall|i: int| 0 <= i < off.len() implies all.contains(#[trigger] off[i]) by {
        lemma_turned_off(disabled, swapped_off);
        assert(disabled.contains(off[i]));
        all.lemma_filter_contains_rev(on_disk(), off[i]);
    }
    assert forall|i: int| 0 <= i < off.len() implies off.contains(#[trigger] off[i]) by {}
    let start = HostView { thp: changed.thp, swap: host.swap };
    lemma_swap_is_restored(start, all, off, off);
    let r = after_steps(changed, ons);
    lemma_without_areas(host.swap, off);
    assert(r.swap =~= host.swap) by {
        assert forall|path: Seq<char>| host.swap.contains_key(path) implies #[trigger]
            r.swap.contains_key(path) by {
            if !changed.swap.contains_key(path) {
                let i = choose|i: int| 0 <= i < off.len() && (#[trigger] off[i]).path == path;
                assert(r.swap.contains_key(off[i].path));
            }
        }
    }
    if noted.len() == 0 {
        assert(steps =~= ons);
    } else {
        assert(noted.len() == 1);
        let write = RestoreStepView::Write(noted[0]);
        assert(steps =~= ons.push(write));
        assert(steps.drop_last() =~= ons);
        assert(after_steps(changed, steps) == after_step(r, write));
    }
    assert(after_steps(changed, steps) =~= host);
}

// ---------------------------------------------------------------------------------------------
// What is read and planned
// ---------------------------------------------------------------------------------------------

/// The available memory is the first word after `MemAvailable:` in the first line that begins with
/// it, if that is a number. Without such a line it cannot be told.
pub proof fn law_available_memory_is_read(meminfo: &str, r: Option<u64>, i: int)
    requires
        call_ensures(mem_available_kib, (meminfo,), r),
    ensures
        ({
            let rows = crate::text::lines_of(meminfo@);
            let columns = crate::text::words(rows[i].skip("MemAvailable:"@.len() as int));
            let kib = crate::numeral::parsed(columns[0], 0, u64::MAX as int);
            &&& 0 <= i < rows.len() && "MemAvailable:"@.is_prefix_of(rows[i]) && (forall|j: int|
                0 <= j < i ==> !"MemAvailable:"@.is_prefix_of(#[trigger] rows[j])) ==> {
                &&& r is Some <==> columns.len() > 0 && kib is Some
                &&& r matches Some(n) ==> kib == Some(n as int)
            }
            &&& (forall|j: int|
                0 <= j < rows.len() ==> !"MemAvailable:"@.is_prefix_of(#[trigger] rows[j])) ==> r
                is None
        }),
{
    let rows = crate::text::lines_of(meminfo@);
    if 0 <= i < rows.len() && "MemAvailable:"@.is_prefix_of(rows[i]) && (forall|j: int|
        0 <= j < i ==> !"MemAvailable:"@.is_prefix_of(#[trigger] rows[j])) {
        lemma_available_line(rows, i);
    }
    if forall|j: int| 0 <= j < rows.len() ==> !"MemAvailable:"@.is_prefix_of(#[trigger] rows[j]) {
        lemma_available_line(rows, rows.len() as int);
    }
}

proof fn lemma_available_line(rows: Seq<Seq<char>>, i: int)
    requires
        0 <= i <= rows.len(),
        i < rows.len() ==> "MemAvailable:"@.is_prefix_of(rows[i]),
        forall|j: int| 0 <= j < i ==> !"MemAvailable:"@.is_prefix_of(#[trigger] rows[j]),
    ensures
        available_line(rows) == (if i < rows.len() {
            Some(rows[i].skip("MemAvailable:"@.len() as int))
        } else {
            None
        }),
    decreases i,
{
    if i > 0 {
        let rest = rows.skip(1);
        assert forall|j: int| 0 <= j < i - 1 implies !"MemAvailable:"@.is_prefix_of(
            #[trigger] rest[j],
        ) by {
            assert(rest[j] == rows[j + 1]);
        }
        assert(!"MemAvailable:"@.is_prefix_of(rows[0]));
        lemma_available_line(rest, i - 1);
    }
}

/// The mode of huge pages in use is what stands in the first pair of square brackets around a word.
/// Without one it cannot be told.
pub proof fn law_bracketed_mode_is_in_use(content: &str, r: Option<String>, i: int, mode: Seq<char>)
    requires
        call_ensures(read_thp_mode, (content,), r),
    ensures
        ({
            let tokens = crate::text::words(content@);
            &&& 0 <= i < tokens.len() && tokens[i] == seq!['['] + mode + seq![']'] && (forall|j: int|
                0 <= j < i ==> (#[trigger] tokens[j])[0] != '[') ==> (r matches Some(m) && m@
                == mode)
            &&& (forall|j: int| 0 <= j < tokens.len() ==> (#[trigger] tokens[j])[0] != '[') ==> r
                is None
        }),
{
    let tokens = crate::text::words(content@);
    if 0 <= i < tokens.len() && tokens[i] == seq!['['] + mode + seq![']'] && (forall|j: int|
        0 <= j < i ==> (#[trigger] tokens[j])[0] != '[') {
        lemma_active_mode(tokens, i);
        assert(tokens[i].subrange(1, tokens[i].len() - 1) =~= mode);
    }
    if forall|j: int| 0 <= j < tokens.len() ==> (#[trigger] tokens[j])[0] != '[' {
        lemma_active_mode(tokens, tokens.len() as int);
    }
}

proof fn lemma_active_mode(tokens: Seq<Seq<char>>, i: int)
    requires
        0 <= i <= tokens.len(),
        i < tokens.len() ==> tokens[i].len() >= 2 && tokens[i][0] == '[' && tokens[i].last() == ']',
        forall|j: int| 0 <= j < i ==> (#[trigger] tokens[j])[0] != '[',
    ensures
        active_mode(tokens) == (if i < tokens.len() {
            Some(tokens[i].subrange(1, tokens[i].len() - 1))
        } else {
            None
        }),
    decreases i,
{
    if i > 0 {
        let rest = tokens.skip(1);
        assert forall|j: int| 0 <= j < i - 1 implies (#[trigger] rest[j])[0] != '[' by {
            assert(rest[j] == tokens[j + 1]);
        }
        assert(tokens[0][0] != '[');
        lemma_active_mode(rest, i - 1);
    }
}

/// Before a run huge pages are turned off unless they are, the swap on disk that fits in memory is
/// turned off, and caches are dropped. Nothing is done where privileges cannot be had.
pub proof fn law_plan_makes_memory_stable(
    thp: &str,
    swaps: &str,
    meminfo: &str,
    can_elevate: bool,
    mode: Option<String>,
    areas: Vec<SwapArea>,
    available: Option<u64>,
    plan: Option<TunablePlan>,
)
    requires
        call_ensures(read_thp_mode, (thp,), mode),
        call_ensures(SwapArea::parse_all, (swaps,), areas),
        call_ensures(mem_available_kib, (meminfo,), available),
        call_ensures(
            MemoryTunables::plan,
            (can_elevate, Some(thp), Some(swaps), Some(meminfo)),
            plan,
        ),
    ensures
        plan is Some <==> can_elevate,
        plan matches Some(p) ==> {
            let candidates = areas.deep_view().filter(
                |a: SwapAreaView| !"/dev/zram"@.is_prefix_of(a.path),
            );
            &&& p.thp is Some <==> (mode matches Some(m) && m@ != "never"@)
            &&& p.thp matches Some(both) ==> both.0.path@
                == "/sys/kernel/mm/transparent_hugepage/enabled"@ && both.0.value@ == "never"@
                && both.1@ == mode->0@
            &&& available matches Some(kib) ==> p.swapoff.deep_view() == (if total_used(candidates)
                < kib {
                candidates
            } else {
                Seq::empty()
            })
            &&& available is None ==> p.swapoff@.len() == 0
            &&& p.drop_caches.path@ == "/proc/sys/vm/drop_caches"@ && p.drop_caches.value@ == "3"@
        },
{
    assert((|a: SwapAreaView| !"/dev/zram"@.is_prefix_of(a.path)) =~= on_disk());
    if let Some(p) = plan {
        assert(p.swapoff.deep_view().len() == p.swapoff@.len());
    }
}

/// Nothing is changed that cannot be read.
pub proof fn law_unreadable_settings_are_left(
    swaps: Option<&str>,
    meminfo: Option<&str>,
    plan: Option<TunablePlan>,
)
    requires
        call_ensures(MemoryTunables::plan, (true, None, swaps, meminfo), plan),
    ensures
        plan matches Some(p) && p.thp is None,
        swaps is None || meminfo is None ==> plan->0.swapoff@.len() == 0,
{
    assert(plan->0.swapoff.deep_view().len() == plan->0.swapoff@.len());
}

/// What is noted is what was changed: the mode of huge pages with the mode that was in use, if it was
/// written, and each area that was turned off, in the order of the plan.
pub proof fn law_changes_are_noted(
    plan: TunablePlan,
    thp_written: bool,
    swapped_off: &Vec<bool>,
    noted: MemoryTunables,
    i: int,
    j: int,
)
    requires
        call_ensures(MemoryTunables::apply, (plan, thp_written, swapped_off), noted),
        swapped_off@.len() == plan.swapoff@.len(),
    ensures
        noted.thp@.len() == (if plan.thp is Some && thp_written {
            1int
        } else {
            0
        }),
        plan.thp matches Some((write, previous)) ==> thp_written ==> noted.thp@[0].path@
            == write.path@ && noted.thp@[0].value@ == previous@,
        0 <= i < plan.swapoff@.len() && swapped_off@[i] ==> noted.swap.deep_view().contains(
            plan.swapoff.deep_view()[i],
        ),
        0 <= j < noted.swap@.len() ==> exists|k: int|
            0 <= k < plan.swapoff@.len() && swapped_off@[k] && #[trigger] plan.swapoff.deep_view()[k]
                == noted.swap.deep_view()[j],
        (forall|k: int| 0 <= k < swapped_off@.len() ==> swapped_off@[k]) ==> noted.swap.deep_view()
            == plan.swapoff.deep_view(),
        (forall|k: int| 0 <= k < swapped_off@.len() ==> !swapped_off@[k]) ==> noted.swap@.len() == 0,
{
    let thp = noted.thp.deep_view();
    assert(thp.len() == noted.thp@.len());
    if plan.thp is Some && thp_written {
        assert(thp[0] == (noted.thp@[0].path@, noted.thp@[0].value@));
    }
    assert(noted.swap.deep_view().len() == noted.swap@.len());
    lemma_turned_off_in_order(plan.swapoff.deep_view(), swapped_off@, i, j);
}

proof fn lemma_turned_off_in_order(
    areas: Seq<SwapAreaView>,
    swapped_off: Seq<bool>,
    i: int,
    j: int,
)
    requires
        areas.len() <= swapped_off.len(),
    ensures
        0 <= i < areas.len() && swapped_off[i] ==> turned_off(areas, swapped_off).contains(areas[i]),
        0 <= j < turned_off(areas, swapped_off).len() ==> exists|k: int|
            0 <= k < areas.len() && swapped_off[k] && #[trigger] areas[k] == turned_off(
                areas,
                swapped_off,
            )[j],
        (forall|k: int| 0 <= k < areas.len() ==> swapped_off[k]) ==> turned_off(areas, swapped_off)
            == areas,
        (forall|k: int| 0 <= k < areas.len() ==> !swapped_off[k]) ==> turned_off(areas, swapped_off)
            == Seq::<SwapAreaView>::empty(),
    decreases areas.len(),
{
    if areas.len() > 0 {
        let rest = areas.drop_last();
        lemma_turned_off_in_order(rest, swapped_off, i, j);
        let before = turned_off(rest, swapped_off);
        let after = turned_off(areas, swapped_off);
        if 0 <= i < areas.len() && swapped_off[i] {
            if i < areas.len() - 1 {
                assert(rest[i] == areas[i]);
                let k = before.index_of(areas[i]);
                assert(after[k] == before[k]);
            } else {
                assert(after[after.len() - 1] == areas[i]);
            }
        }
        if 0 <= j < after.len() {
            if j < before.len() {
                assert(after[j] == before[j]);
                let k = choose|k: int|
                    0 <= k < rest.len() && swapped_off[k] && #[trigger] rest[k] == before[j];
                assert(areas[k] == rest[k]);
            } else {
                assert(areas[areas.len() - 1] == after[j]);
            }
        }
        if forall|k: int| 0 <= k < areas.len() ==> swapped_off[k] {
            assert(swapped_off[areas.len() - 1]);
            assert(rest.push(areas.last()) =~= areas);
        }
        if forall|k: int| 0 <= k < areas.len() ==> !swapped_off[k] {
            assert(!swapped_off[areas.len() - 1]);
        }
    } else {
        assert(areas =~= Seq::<SwapAreaView>::empty());
    }
}

/// Swap is turned on again before the mode of huge pages is written back, area by area in the order
/// in which the areas were noted: each with its priority, unless the kernel chose that.
pub proof fn law_swap_comes_back_first(noted: &MemoryTunables, steps: Vec<RestoreStep>, i: int)
    requires
        call_ensures(MemoryTunables::restore, (noted,), steps),
    ensures
        steps@.len() == noted.swap@.len() + noted.thp@.len(),
        0 <= i < noted.swap@.len() ==> (steps@[i] matches RestoreStep::SwapOn(args)
            && args.deep_view().last() == noted.swap@[i].path@ && (noted.swap@[i].priority >= 0
            <==> args@.len() == 3) && (noted.swap@[i].priority < 0 <==> args@.len() == 1) && (
        args@.len() == 3 ==> args@[0]@ == "-p"@ && crate::numeral::numeral_value(args@[1]@, true)
            == Some(noted.swap@[i].priority as int))),
        0 <= i < noted.thp@.len() ==> (steps@[noted.swap@.len() + i] matches RestoreStep::Write(
            write,
        ) && write.path@ == noted.thp@[i].path@ && write.value@ == noted.thp@[i].value@),
{
    let all = steps.deep_view();
    let swap = noted.swap.deep_view();
    let thp = noted.thp.deep_view();
    assert(all.len() == steps@.len() && swap.len() == noted.swap@.len() && thp.len()
        == noted.thp@.len());
    if 0 <= i < swap.len() {
        assert(all[i] == steps@[i].deep_view());
        assert(swap[i] == noted.swap@[i].deep_view());
        assert(steps@[i] is SwapOn);
        let args = steps@[i]->SwapOn_0;
        assert(args.deep_view() == swapon_args(swap[i]));
        assert(args.deep_view().len() == args@.len());
        if args@.len() == 3 {
            assert(args.deep_view()[0] == args@[0]@ && args.deep_view()[1] == args@[1]@);
            crate::numeral::law_signed_decimal_reads_back(swap[i].priority as int);
        }
    }
    if 0 <= i < thp.len() {
        assert(all[swap.len() + i] == steps@[swap.len() + i].deep_view());
        assert(thp[i] == noted.thp@[i].deep_view());
    }
}

/// A swap area is turned on again with the priority that was set, and without one where the kernel
/// chose it.
pub proof fn law_swap_keeps_its_priority(area: &SwapArea, r: Vec<String>)
    requires
        call_ensures(SwapArea::swapon_argv, (area,), r),
    ensures
        r@.len() > 0 && r@.last()@ == area.path@,
        area.priority < 0 ==> r@.len() == 1,
        area.priority >= 0 ==> r@.len() == 3 && r@[0]@ == "-p"@ && r@[1]@
            == crate::numeral::signed_decimal(area.priority as int),
{
    let v = r.deep_view();
    assert(v.len() == r@.len());
    assert forall|i: int| 0 <= i < r@.len() implies #[trigger] v[i] == r@[i]@ by {}
    assert(v[v.len() - 1] == r@.last()@);
    if area.priority >= 0 {
        assert(v[0] == r@[0]@ && v[1] == r@[1]@);
    }
}

/// A value is written to a file by a shell that is run as root.
pub proof fn law_values_are_written_to_files(path: &str, value: &str, r: Vec<String>)
    requires
        call_ensures(write_root_file, (path, value), r),
    ensures
        r@.len() == 2,
        r@[0]@ == "-c"@,
        r@[1]@ == "printf '%s' "@ + value@ + " > "@ + path@,
{
    let v = r.deep_view();
    assert(v.len() == r@.len());
    assert(v[0] == r@[0]@ && v[1] == r@[1]@);
}

} // verus!
