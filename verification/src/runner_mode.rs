//! The modes in which benchmarks are run.
use vstd::prelude::*;

use crate::json::{count_quotes, items_from_json, list_to_json, JsonItem};
use crate::shell_session_store::{SessionKind, SessionPlace, StateWrite, NoParent};
use crate::text::str_eq;

verus! {

/// How benchmarks are measured. `Instrumentation` is the old name of `Simulation`.
#[derive(Debug, Clone, Copy, PartialEq, Eq, Structural)]
pub enum RunnerMode {
    Instrumentation,
    Simulation,
    Walltime,
    Memory,
}

impl RunnerMode {
    /// The name by which the mode is given and stored.
    pub open spec fn name(self) -> Seq<char> {
        match self {
            RunnerMode::Instrumentation => "instrumentation"@,
            RunnerMode::Simulation => "simulation"@,
            RunnerMode::Walltime => "walltime"@,
            RunnerMode::Memory => "memory"@,
        }
    }

    /// The name by which the mode is shown.
    pub open spec fn title(self) -> Seq<char> {
        match self {
            RunnerMode::Instrumentation => "Instrumentation"@,
            RunnerMode::Simulation => "Simulation"@,
            RunnerMode::Walltime => "Walltime"@,
            RunnerMode::Memory => "Memory"@,
        }
    }

    pub fn as_str(&self) -> (r: &'static str)
        ensures
            r@ == self.name(),
    {
        match self {
            RunnerMode::Instrumentation => "instrumentation",
            RunnerMode::Simulation => "simulation",
            RunnerMode::Walltime => "walltime",
            RunnerMode::Memory => "memory",
        }
    }

    /// The name by which the mode is shown.
    pub fn label(&self) -> (r: &'static str)
        ensures
            r@ == self.title(),
    {
        match self {
            RunnerMode::Instrumentation => "Instrumentation",
            RunnerMode::Simulation => "Simulation",
            RunnerMode::Walltime => "Walltime",
            RunnerMode::Memory => "Memory",
        }
    }

    /// Whether there is such a mode: memory is measured on Linux only.
    pub open spec fn is_offered(self, is_linux: bool) -> bool {
        self is Memory ==> is_linux
    }

    /// The mode of a name, if there is such a mode.
    pub fn from_name(name: &str, is_linux: bool) -> (r: Option<RunnerMode>)
        ensures
            match r {
                Some(mode) => mode.name() == name@ && mode.is_offered(is_linux),
                None => forall|other: RunnerMode|
                    other.is_offered(is_linux) ==> #[trigger] other.name() != name@,
            },
    {
        if str_eq(name, "instrumentation") {
            return Some(RunnerMode::Instrumentation);
        }
        if str_eq(name, "simulation") {
            return Some(RunnerMode::Simulation);
        }
        if str_eq(name, "walltime") {
            return Some(RunnerMode::Walltime);
        }
        if is_linux && str_eq(name, "memory") {
            return Some(RunnerMode::Memory);
        }
        None
    }
}

/// Different modes have different names.
pub proof fn law_mode_names_are_unique(a: RunnerMode, b: RunnerMode)
    requires
        a.name() == b.name(),
    ensures
        a == b,
{
    reveal_strlit("instrumentation");
    reveal_strlit("simulation");
    reveal_strlit("walltime");
    reveal_strlit("memory");
    assert("instrumentation"@[0] == 'i');
    assert("simulation"@[0] == 's');
    assert("walltime"@[0] == 'w');
    assert("memory"@[0] == 'm');
}

/// The names of modes.
pub open spec fn mode_names(modes: Seq<RunnerMode>) -> Seq<Seq<char>> {
    Seq::new(modes.len(), |i: int| modes[i].name())
}

/// The name that an item of a list stands for: a text, or an object with null under that name alone.
pub open spec fn item_name(item: crate::json::JsonItemView) -> Option<Seq<char>> {
    match item {
        crate::json::JsonItemView::Text(name) => Some(name),
        crate::json::JsonItemView::Object(entries) => if entries.len() == 1 && entries[0].1 {
            Some(entries[0].0)
        } else {
            None
        },
        crate::json::JsonItemView::Other => None,
    }
}

/// Whether JSON stands for a list of these modes. No name of a mode holds a quote, so that there are
/// more quotes than two for each item only where a key is written twice in an object, which is
/// refused.
pub open spec fn stores(json: Seq<char>, modes: Seq<RunnerMode>) -> bool {
    &&& crate::json::items_in_json(json) matches Some(items)
    &&& items.len() == modes.len()
    &&& forall|i: int|
        0 <= i < items.len() ==> item_name(#[trigger] items[i]) == Some(modes[i].name())
    &&& crate::json::quotes_in(json) == 2 * items.len()
}

proof fn lemma_no_quotes(mode: RunnerMode)
    ensures
        crate::json::quotes_in(mode.name()) == 0,
{
    reveal_strlit("instrumentation");
    reveal_strlit("simulation");
    reveal_strlit("walltime");
    reveal_strlit("memory");
    lemma_without_quotes(mode.name());
}

proof fn lemma_without_quotes(text: Seq<char>)
    requires
        forall|i: int| 0 <= i < text.len() ==> #[trigger] text[i] != '"',
    ensures
        crate::json::quotes_in(text) == 0,
    decreases text.len(),
{
    if text.len() > 0 {
        let rest = text.drop_last();
        assert forall|i: int| 0 <= i < rest.len() implies #[trigger] rest[i] != '"' by {
            assert(rest[i] == text[i]);
        }
        lemma_without_quotes(rest);
    }
}

/// What is stored for a shell session to use these modes.
pub fn register_shell_session_mode(modes: &Vec<RunnerMode>, place: &SessionPlace, parent_pid: Option<i32>) -> (r: Result<
    StateWrite,
    NoParent,
>)
    ensures
        match parent_pid {
            Some(pid) => {
                &&& r matches Ok(write)
                &&& write.dir@ == place.root(SessionKind::Mode)
                &&& write.path@ == crate::shell_session_store::state_file(write.dir@, pid)
                &&& write.content@ == crate::json::json_list(mode_names(modes@))
                &&& stores(write.content@, modes@)
            },
            None => r is Err,
        },
{
    let mut names: Vec<String> = Vec::new();
    let mut i: usize = 0;
    while i < modes.len()
        invariant
            i <= modes@.len(),
            names@.len() == i,
            forall|j: int| 0 <= j < i ==> (#[trigger] names@[j])@ == modes@[j].name(),
        decreases modes.len() - i,
    {
        names.push(modes[i].as_str().to_owned());
        i = i + 1;
    }
    assert(names.deep_view() =~= mode_names(modes@));
    let content = list_to_json(&names);
    proof {
        assert forall|j: int| 0 <= j < names@.len() implies crate::json::quotes_in(
            (#[trigger] names@[j])@,
        ) == 0 by {
            lemma_no_quotes(modes@[j]);
        }
        let items = crate::json::text_items(mode_names(modes@));
        assert forall|j: int| 0 <= j < items.len() implies item_name(#[trigger] items[j]) == Some(
            modes@[j].name(),
        ) by {}
        assert(stores(content@, modes@));
    }
    crate::shell_session_store::register(SessionKind::Mode, content, place, parent_pid)
}

/// Whether there are all of these modes.
pub open spec fn all_offered(modes: Seq<RunnerMode>, is_linux: bool) -> bool {
    forall|i: int| 0 <= i < modes.len() ==> (#[trigger] modes[i]).is_offered(is_linux)
}

/// The mode that an item of a list stands for, if there is such a mode.
fn mode_of_item(item: &JsonItem, is_linux: bool) -> (r: Option<RunnerMode>)
    ensures
        match r {
            Some(mode) => item_name(item.deep_view()) == Some(mode.name()) && mode.is_offered(
                is_linux,
            ),
            None => forall|mode: RunnerMode|
                mode.is_offered(is_linux) ==> item_name(item.deep_view()) != Some(
                    #[trigger] mode.name(),
                ),
        },
{
    match item {
        JsonItem::Text(name) => RunnerMode::from_name(name.as_str(), is_linux),
        JsonItem::Object(entries) => {
            let ghost view = entries.deep_view();
            assert(view.len() == entries@.len());
            if entries.len() == 1 {
                assert(view[0] == entries@[0].deep_view());
                if entries[0].1 {
                    return RunnerMode::from_name(entries[0].0.as_str(), is_linux);
                }
            }
            None
        },
        JsonItem::Other => None,
    }
}

/// The modes of a shell session, from what is stored for it: none where nothing is. The result is
/// `None` where what is stored is no list of modes that there are.
pub fn load_shell_session_mode(stored: Option<&str>, is_linux: bool) -> (r: Option<Vec<RunnerMode>>)
    ensures
        match crate::text::text_of(stored) {
            None => r matches Some(modes) && modes@.len() == 0,
            Some(json) => match r {
                Some(modes) => stores(json, modes@) && all_offered(modes@, is_linux),
                None => forall|others: Seq<RunnerMode>|
                    all_offered(others, is_linux) ==> !#[trigger] stores(json, others),
            },
        },
{
    let Some(json) = stored else {
        return Some(Vec::new());
    };
    let Some(items) = items_from_json(json) else {
        return None;
    };
    let ghost all = items.deep_view();
    let quotes: usize = count_quotes(json);
    if quotes % 2 != 0 || quotes / 2 != items.len() {
        assert(crate::json::quotes_in(json@) != 2 * all.len());
        return None;
    }
    let mut out: Vec<RunnerMode> = Vec::new();
    let mut i: usize = 0;
    while i < items.len()
        invariant
            crate::text::text_of(stored) == Some(json@),
            crate::json::items_in_json(json@) == Some(all),
            crate::json::quotes_in(json@) == 2 * all.len(),
            all == items.deep_view(),
            i <= items@.len(),
            out@.len() == i,
            forall|j: int|
                0 <= j < i ==> item_name(all[j]) == Some((#[trigger] out@[j]).name())
                    && out@[j].is_offered(is_linux),
        decreases items.len() - i,
    {
        assert(all[i as int] == items@[i as int].deep_view());
        match mode_of_item(&items[i], is_linux) {
            Some(mode) => {
                out.push(mode);
            },
            None => {
                assert forall|modes: Seq<RunnerMode>|
                    all_offered(modes, is_linux) implies !#[trigger] stores(json@, modes) by {
                    if stores(json@, modes) {
                        assert(item_name(all[i as int]) == Some(modes[i as int].name()));
                        assert(modes[i as int].is_offered(is_linux));
                    }
                }
                return None;
            },
        }
        i = i + 1;
    }
    assert forall|j: int| 0 <= j < all.len() implies item_name(#[trigger] all[j]) == Some(
        out@[j].name(),
    ) by {
        assert(out@[j].is_offered(is_linux));
    }
    Some(out)
}

/// A session finds the modes again that were stored for it.
pub proof fn law_stored_modes_are_found(stored: Seq<char>, written: Seq<RunnerMode>, read: Seq<RunnerMode>)
    requires
        stores(stored, written),
        stores(stored, read),
    ensures
        read == written,
{
    let items = crate::json::items_in_json(stored)->0;
    assert forall|i: int| 0 <= i < read.len() implies read[i] == written[i] by {
        assert(item_name(items[i]) == Some(read[i].name()));
        law_mode_names_are_unique(read[i], written[i]);
    }
    assert(read =~= written);
}

/// A mode is shown by its name with a capital letter.
pub proof fn law_titles_are_names(mode: RunnerMode)
    ensures
        mode.title().skip(1) == mode.name().skip(1),
        mode.title()[0] as u32 + 32 == mode.name()[0] as u32,
{
    reveal_strlit("instrumentation");
    reveal_strlit("simulation");
    reveal_strlit("walltime");
    reveal_strlit("memory");
    reveal_strlit("Instrumentation");
    reveal_strlit("Simulation");
    reveal_strlit("Walltime");
    reveal_strlit("Memory");
    assert(mode.title().skip(1) =~= mode.name().skip(1));
}

/// Each mode is found by its name, but for that of memory where it cannot be measured.
pub proof fn law_modes_are_found_by_name(
    given: RunnerMode,
    name: &'static str,
    is_linux: bool,
    r: Option<RunnerMode>,
)
    requires
        call_ensures(RunnerMode::as_str, (&given,), name),
        call_ensures(RunnerMode::from_name, (name, is_linux), r),
    ensures
        given is Memory && !is_linux ==> r is None,
        !(given is Memory) || is_linux ==> r == Some(given),
{
    if let Some(found) = r {
        law_mode_names_are_unique(given, found);
    }
}

/// What is stored is read item by item: a text is the name of a mode, and so is the key of an object
/// that holds null alone. Where one item is neither, or names no mode that can be used, nothing is
/// read, nor where what is stored is no list.
pub proof fn law_stored_items_are_modes(
    json: &str,
    is_linux: bool,
    r: Option<Vec<RunnerMode>>,
    i: int,
)
    requires
        call_ensures(load_shell_session_mode, (Some(json), is_linux), r),
    ensures
        crate::json::items_in_json(json@) is None ==> r is None,
        crate::json::items_in_json(json@) matches Some(items) ==> {
            &&& r matches Some(modes) ==> modes@.len() == items.len()
            &&& 0 <= i < items.len() && items[i] is Other ==> r is None
            &&& 0 <= i < items.len() ==> (items[i] matches crate::json::JsonItemView::Object(entries)
                && (entries.len() != 1 || !entries[0].1) ==> r is None)
            &&& 0 <= i < items.len() ==> (items[i] matches crate::json::JsonItemView::Text(name)
                ==> r is None || name == r->0@[i].name())
            &&& 0 <= i < items.len() && r is Some ==> (r->0@[i] is Memory ==> is_linux)
        },
{
    if let Some(modes) = r {
        let items = crate::json::items_in_json(json@)->0;
        if 0 <= i < items.len() {
            assert(item_name(items[i]) == Some(modes@[i].name()));
        }
    }
}

} // verus!
