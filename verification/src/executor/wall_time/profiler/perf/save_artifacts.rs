//! What is stored of the modules that were loaded while a profile was taken.
//!
//! The tables of a module are stored once, under a key, and each process that loaded the module
//! refers to the key. Modules come in the order in which the map that holds them is walked.
use std::collections::HashMap;

use vstd::prelude::*;

use super::by_pid::{group, group_sorted};
use super::debug_info::{debug_info_of_module, ModuleFiles};
use super::loaded_module::LoadedModule;
use super::module_symbols::{FileAppend, ModuleSymbols};
use super::path_keys::PathKeys;
use crate::path::file_name;
use crate::runner_shared::debug_info::{
    MappedProcessDebugInfo, MappedProcessDebugInfoView, ModuleDebugInfo,
};
use crate::runner_shared::module_symbols::{
    MappedProcessModuleSymbols, MappedProcessModuleSymbolsView, SYMBOLS_MAP_SUFFIX,
};
use crate::runner_shared::unwind_data::{
    MappedProcessUnwindData, MappedProcessUnwindDataView, ProcessUnwindData, UnwindData,
};
use crate::sort::Ranked;
use crate::text::{contains_str, starts_with};
use crate::text_map::text_at_most;

verus! {

/// A path and the module that was loaded from it.
pub type PathModule = (String, LoadedModule);

/// A process and the unwind data of the code that it compiled.
pub type PidJitData = (i32, Vec<(UnwindData, ProcessUnwindData)>);

// ---------------------------------------------------------------------------------------------
// Mappings
// ---------------------------------------------------------------------------------------------

/// How a process refers to what is stored of a module.
pub trait ProcessMapping: Ranked {
    /// How the process `pid` refers to the module whose key is `key`, if it does.
    spec fn mapping_of(module: LoadedModule, key: Seq<char>, pid: i32) -> Option<
        <Self as DeepView>::V,
    >;

    /// Only the processes that loaded the module refer to it.
    proof fn only_loaded(module: LoadedModule, key: Seq<char>, pid: i32)
        ensures
            Self::mapping_of(module, key, pid) is Some
                ==> module.process_loaded_modules@.contains_key(pid),
    ;

    /// How the process `pid` refers to the module whose key is `key`, if it does.
    fn mapping(module: &LoadedModule, key: &str, pid: i32) -> (r: Option<Self>)
        ensures
            r.deep_view() == Self::mapping_of(*module, key@, pid),
    ;
}

/// The load bias of the module in the process `pid`, if it is known.
pub open spec fn load_bias_of(module: LoadedModule, pid: i32) -> Option<u64> {
    if module.process_loaded_modules@.contains_key(pid) {
        module.process_loaded_modules@[pid].symbols_load_bias
    } else {
        None
    }
}

/// The load bias of the module in the process `pid`, if it is known.
fn load_bias(module: &LoadedModule, pid: i32) -> (r: Option<u64>)
    ensures
        r == load_bias_of(*module, pid),
{
    broadcast use vstd::std_specs::hash::group_hash_axioms;

    match module.process_loaded_modules.get(&pid) {
        Some(process) => process.symbols_load_bias,
        None => None,
    }
}

impl Ranked for MappedProcessModuleSymbols {
    open spec fn ranked(
        a: MappedProcessModuleSymbolsView,
        b: MappedProcessModuleSymbolsView,
    ) -> bool {
        crate::text_map::text_le(a.perf_map_key, b.perf_map_key)
    }

    proof fn ranked_is_total(a: MappedProcessModuleSymbolsView, b: MappedProcessModuleSymbolsView) {
        crate::text_map::lemma_text_le_total(a.perf_map_key, b.perf_map_key);
    }

    proof fn ranked_is_transitive(
        a: MappedProcessModuleSymbolsView,
        b: MappedProcessModuleSymbolsView,
        c: MappedProcessModuleSymbolsView,
    ) {
        crate::text_map::lemma_text_le_transitive(a.perf_map_key, b.perf_map_key, c.perf_map_key);
    }

    fn at_most(&self, other: &Self) -> (r: bool) {
        text_at_most(self.perf_map_key.as_str(), other.perf_map_key.as_str())
    }
}

impl ProcessMapping for MappedProcessModuleSymbols {
    open spec fn mapping_of(module: LoadedModule, key: Seq<char>, pid: i32) -> Option<
        MappedProcessModuleSymbolsView,
    > {
        match (module.module_symbols, load_bias_of(module, pid)) {
            (Some(_), Some(load_bias)) => Some(
                MappedProcessModuleSymbolsView { perf_map_key: key, load_bias },
            ),
            _ => None,
        }
    }

    proof fn only_loaded(module: LoadedModule, key: Seq<char>, pid: i32) {
    }

    fn mapping(module: &LoadedModule, key: &str, pid: i32) -> (r: Option<Self>) {
        if module.module_symbols.is_none() {
            return None;
        }
        match load_bias(module, pid) {
            Some(load_bias) => Some(
                MappedProcessModuleSymbols { perf_map_key: key.to_owned(), load_bias },
            ),
            None => None,
        }
    }
}

impl Ranked for MappedProcessDebugInfo {
    open spec fn ranked(a: MappedProcessDebugInfoView, b: MappedProcessDebugInfoView) -> bool {
        crate::text_map::text_le(a.debug_info_key, b.debug_info_key)
    }

    proof fn ranked_is_total(a: MappedProcessDebugInfoView, b: MappedProcessDebugInfoView) {
        crate::text_map::lemma_text_le_total(a.debug_info_key, b.debug_info_key);
    }

    proof fn ranked_is_transitive(
        a: MappedProcessDebugInfoView,
        b: MappedProcessDebugInfoView,
        c: MappedProcessDebugInfoView,
    ) {
        crate::text_map::lemma_text_le_transitive(
            a.debug_info_key,
            b.debug_info_key,
            c.debug_info_key,
        );
    }

    fn at_most(&self, other: &Self) -> (r: bool) {
        text_at_most(self.debug_info_key.as_str(), other.debug_info_key.as_str())
    }
}

impl ProcessMapping for MappedProcessDebugInfo {
    open spec fn mapping_of(module: LoadedModule, key: Seq<char>, pid: i32) -> Option<
        MappedProcessDebugInfoView,
    > {
        match (module.module_symbols, load_bias_of(module, pid)) {
            (Some(_), Some(load_bias)) => Some(
                MappedProcessDebugInfoView { debug_info_key: key, load_bias },
            ),
            _ => None,
        }
    }

    proof fn only_loaded(module: LoadedModule, key: Seq<char>, pid: i32) {
    }

    fn mapping(module: &LoadedModule, key: &str, pid: i32) -> (r: Option<Self>) {
        if module.module_symbols.is_none() {
            return None;
        }
        match load_bias(module, pid) {
            Some(load_bias) => Some(
                MappedProcessDebugInfo { debug_info_key: key.to_owned(), load_bias },
            ),
            None => None,
        }
    }
}

impl Ranked for MappedProcessUnwindData {
    open spec fn ranked(a: MappedProcessUnwindDataView, b: MappedProcessUnwindDataView) -> bool {
        crate::text_map::text_le(a.unwind_data_key, b.unwind_data_key)
    }

    proof fn ranked_is_total(a: MappedProcessUnwindDataView, b: MappedProcessUnwindDataView) {
        crate::text_map::lemma_text_le_total(a.unwind_data_key, b.unwind_data_key);
    }

    proof fn ranked_is_transitive(
        a: MappedProcessUnwindDataView,
        b: MappedProcessUnwindDataView,
        c: MappedProcessUnwindDataView,
    ) {
        crate::text_map::lemma_text_le_transitive(
            a.unwind_data_key,
            b.unwind_data_key,
            c.unwind_data_key,
        );
    }

    fn at_most(&self, other: &Self) -> (r: bool) {
        text_at_most(self.unwind_data_key.as_str(), other.unwind_data_key.as_str())
    }
}

impl ProcessMapping for MappedProcessUnwindData {
    open spec fn mapping_of(module: LoadedModule, key: Seq<char>, pid: i32) -> Option<
        MappedProcessUnwindDataView,
    > {
        if module.unwind_data is Some && module.process_loaded_modules@.contains_key(pid) {
            match module.process_loaded_modules@[pid].process_unwind_data {
                Some(inner) => Some(MappedProcessUnwindDataView { unwind_data_key: key, inner }),
                None => None,
            }
        } else {
            None
        }
    }

    proof fn only_loaded(module: LoadedModule, key: Seq<char>, pid: i32) {
    }

    fn mapping(module: &LoadedModule, key: &str, pid: i32) -> (r: Option<Self>) {
        broadcast use vstd::std_specs::hash::group_hash_axioms;

        if module.unwind_data.is_none() {
            return None;
        }
        match module.process_loaded_modules.get(&pid) {
            Some(process) => match &process.process_unwind_data {
                Some(inner) => Some(
                    MappedProcessUnwindData {
                        unwind_data_key: key.to_owned(),
                        inner: inner.clone(),
                    },
                ),
                None => None,
            },
            None => None,
        }
    }
}

/// `rest` with how the process `pid` refers to a module whose key is `key`, if it does.
pub open spec fn with_mapping<T: ProcessMapping>(
    rest: Seq<<T as DeepView>::V>,
    module: LoadedModule,
    key: Seq<char>,
    pid: i32,
) -> Seq<<T as DeepView>::V> {
    match T::mapping_of(module, key, pid) {
        Some(mapping) => rest.push(mapping),
        None => rest,
    }
}

/// How the process `pid` refers to the modules, in the order of the modules.
pub open spec fn mappings<T: ProcessMapping>(
    modules: Seq<PathModule>,
    paths: Seq<Seq<char>>,
    pid: i32,
) -> Seq<<T as DeepView>::V>
    decreases modules.len(),
{
    if modules.len() == 0 {
        seq![]
    } else {
        with_mapping::<T>(
            mappings::<T>(modules.drop_last(), paths, pid),
            modules.last().1,
            super::path_keys::key_of(paths, modules.last().0@),
            pid,
        )
    }
}

/// Whether all modules have keys.
pub open spec fn have_keys(modules: Seq<PathModule>, paths: Seq<Seq<char>>) -> bool {
    forall|i: int| 0 <= i < modules.len() ==> super::path_keys::has_path(
        paths,
        (#[trigger] modules[i]).0@,
    )
}

/// Adds how the processes refer to a module whose key is `key`.
fn add_module<T: ProcessMapping>(out: &mut Vec<(i32, T)>, module: &LoadedModule, key: &str)
    ensures
        forall|pid: i32| #[trigger]
            super::by_pid::of_pid(final(out).deep_view(), pid) == with_mapping::<T>(
                super::by_pid::of_pid(old(out).deep_view(), pid),
                *module,
                key@,
                pid,
            ),
{
    let ghost start = out.deep_view();
    let pids = module.pids();
    let mut j: usize = 0;
    proof {
        assert(pids@.take(0).len() == 0);
    }
    while j < pids.len()
        invariant
            j <= pids@.len(),
            pids@.no_duplicates(),
            forall|pid: i32| #[trigger]
                super::by_pid::of_pid(out.deep_view(), pid) == (if pids@.take(j as int).contains(
                    pid,
                ) {
                    with_mapping::<T>(super::by_pid::of_pid(start, pid), *module, key@, pid)
                } else {
                    super::by_pid::of_pid(start, pid)
                }),
        decreases pids.len() - j,
    {
        let pid: i32 = pids[j];
        let ghost before = *out;
        let ghost seen = pids@.take(j as int);
        let ghost now = pids@.take(j + 1);
        assert(now =~= seen.push(pid));
        assert(now[j as int] == pid);
        assert(!seen.contains(pid)) by {
            if seen.contains(pid) {
                let k = choose|k: int| 0 <= k < seen.len() && seen[k] == pid;
                assert(pids@[k] == pids@[j as int]);
            }
        }
        let mapping = T::mapping(module, key, pid);
        let ghost view = mapping.deep_view();
        if let Some(m) = mapping {
            out.push((pid, m));
            proof {
                crate::list::lemma_deep_push(before, out@.last(), *out);
            }
        }
        assert forall|p: i32| #[trigger]
            super::by_pid::of_pid(out.deep_view(), p) == (if now.contains(p) {
                with_mapping::<T>(super::by_pid::of_pid(start, p), *module, key@, p)
            } else {
                super::by_pid::of_pid(start, p)
            }) by {
            assert(super::by_pid::of_pid(before.deep_view(), p) == (if seen.contains(p) {
                with_mapping::<T>(super::by_pid::of_pid(start, p), *module, key@, p)
            } else {
                super::by_pid::of_pid(start, p)
            }));
            if view is Some {
                super::by_pid::lemma_of_pid_push(before.deep_view(), (pid, view->0), p);
            }
            if p != pid {
                if now.contains(p) {
                    let k = choose|k: int| 0 <= k < now.len() && now[k] == p;
                    assert(seen[k] == p);
                }
                if seen.contains(p) {
                    let k = choose|k: int| 0 <= k < seen.len() && seen[k] == p;
                    assert(now[k] == p);
                }
            }
        }
        j = j + 1;
    }
    proof {
        assert(pids@.take(j as int) =~= pids@);
        assert forall|pid: i32| #[trigger]
            super::by_pid::of_pid(out.deep_view(), pid) == with_mapping::<T>(
                super::by_pid::of_pid(start, pid),
                *module,
                key@,
                pid,
            ) by {
            T::only_loaded(*module, key@, pid);
            if !pids@.contains(pid) {
                assert(!pids@.to_set().contains(pid));
            }
        }
    }
}

/// How the processes refer to the modules.
fn map_modules<T: ProcessMapping>(modules: &Vec<PathModule>, keys: &PathKeys) -> (r: Vec<(i32, T)>)
    requires
        keys.wf(),
        have_keys(modules@, keys@),
    ensures
        forall|pid: i32| #[trigger]
            super::by_pid::of_pid(r.deep_view(), pid) == mappings::<T>(modules@, keys@, pid),
{
    let mut out: Vec<(i32, T)> = Vec::new();
    let mut i: usize = 0;
    assert(modules@.take(0) =~= seq![]);
    while i < modules.len()
        invariant
            keys.wf(),
            have_keys(modules@, keys@),
            i <= modules@.len(),
            forall|pid: i32| #[trigger]
                super::by_pid::of_pid(out.deep_view(), pid) == mappings::<T>(
                    modules@.take(i as int),
                    keys@,
                    pid,
                ),
        decreases modules.len() - i,
    {
        assert(super::path_keys::has_path(keys@, modules@[i as int].0@));
        let key = match keys.get(modules[i].0.as_str()) {
            Some(key) => key,
            None => String::new(),
        };
        let ghost next = modules@.take(i + 1);
        assert(next.drop_last() =~= modules@.take(i as int));
        assert(next.last() == modules@[i as int]);
        let ghost before = out.deep_view();
        add_module(&mut out, &modules[i].1, key.as_str());
        assert forall|pid: i32| #[trigger]
            super::by_pid::of_pid(out.deep_view(), pid) == mappings::<T>(next, keys@, pid) by {
            assert(super::by_pid::of_pid(before, pid) == mappings::<T>(
                modules@.take(i as int),
                keys@,
                pid,
            ));
        }
        i = i + 1;
    }
    assert(modules@.take(modules@.len() as int) =~= modules@);
    out
}

// ---------------------------------------------------------------------------------------------
// Keys
// ---------------------------------------------------------------------------------------------

/// The paths of modules.
pub open spec fn module_paths(modules: Seq<PathModule>) -> Seq<Seq<char>> {
    Seq::new(modules.len(), |i: int| modules[i].0@)
}

/// Gives each module a key.
fn register_paths(keys: &mut PathKeys, modules: &Vec<PathModule>)
    requires
        old(keys).wf(),
    ensures
        final(keys).wf(),
        final(keys)@ == super::path_keys::all_registered(old(keys)@, module_paths(modules@)),
        have_keys(modules@, final(keys)@),
{
    let ghost start = keys@;
    let ghost all = module_paths(modules@);
    let mut i: usize = 0;
    assert(all.take(0) =~= seq![]);
    while i < modules.len()
        invariant
            keys.wf(),
            all == module_paths(modules@),
            i <= modules@.len(),
            keys@ == super::path_keys::all_registered(start, all.take(i as int)),
        decreases modules.len() - i,
    {
        assert(all.take(i + 1).drop_last() =~= all.take(i as int));
        assert(all.take(i + 1).last() == modules@[i as int].0@);
        let _ = keys.get_or_insert_key(modules[i].0.as_str());
        i = i + 1;
    }
    assert(all.take(all.len() as int) =~= all);
    proof {
        super::path_keys::lemma_all_registered(start, all);
        assert forall|i: int| 0 <= i < modules@.len() implies super::path_keys::has_path(
            keys@,
            (#[trigger] modules@[i]).0@,
        ) by {
            assert(all[i] == modules@[i].0@);
        }
    }
}

// ---------------------------------------------------------------------------------------------
// Symbols
// ---------------------------------------------------------------------------------------------

/// The files that the symbols of the modules go to.
pub open spec fn symbol_files(
    profile_folder: Seq<char>,
    modules: Seq<PathModule>,
    paths: Seq<Seq<char>>,
) -> Seq<(Seq<char>, Seq<char>)>
    decreases modules.len(),
{
    if modules.len() == 0 {
        seq![]
    } else {
        let rest = symbol_files(profile_folder, modules.drop_last(), paths);
        match modules.last().1.module_symbols {
            Some(symbols) => rest.push(
                (
                    crate::path::joined_path(
                        profile_folder,
                        super::path_keys::key_of(paths, modules.last().0@) + seq!['.']
                            + SYMBOLS_MAP_SUFFIX@,
                    ),
                    super::module_symbols::symbol_lines(symbols.deep_view()),
                ),
            ),
            None => rest,
        }
    }
}

/// The files that the symbols of the modules go to, and how the processes refer to them.
fn save_symbols(profile_folder: &str, modules: &Vec<PathModule>, keys: &PathKeys) -> (r: (
    Vec<FileAppend>,
    HashMap<i32, Vec<MappedProcessModuleSymbols>>,
))
    requires
        keys.wf(),
        have_keys(modules@, keys@),
    ensures
        r.0.deep_view() == symbol_files(profile_folder@, modules@, keys@),
        maps_modules::<MappedProcessModuleSymbols>(modules@, keys@, r.1@),
{
    let mut files: Vec<FileAppend> = Vec::new();
    let mut i: usize = 0;
    assert(modules@.take(0) =~= seq![]);
    while i < modules.len()
        invariant
            keys.wf(),
            have_keys(modules@, keys@),
            i <= modules@.len(),
            files.deep_view() == symbol_files(profile_folder@, modules@.take(i as int), keys@),
        decreases modules.len() - i,
    {
        let ghost before = files;
        assert(modules@.take(i + 1).drop_last() =~= modules@.take(i as int));
        assert(modules@.take(i + 1).last() == modules@[i as int]);
        if let Some(symbols) = &modules[i].1.module_symbols {
            assert(super::path_keys::has_path(keys@, modules@[i as int].0@));
            if let Some(key) = keys.get(modules[i].0.as_str()) {
                files.push(symbols.save_to_keyed_file(profile_folder, key.as_str()));
                proof {
                    crate::list::lemma_deep_push(before, files@.last(), files);
                }
            }
        }
        i = i + 1;
    }
    assert(modules@.take(modules@.len() as int) =~= modules@);
    let entries = map_modules::<MappedProcessModuleSymbols>(modules, keys);
    let map = group_sorted(entries);
    proof {
        lemma_maps_modules::<MappedProcessModuleSymbols>(
            modules@,
            keys@,
            entries.deep_view(),
            map@,
        );
    }
    (files, map)
}

/// Whether `map` holds, for each process that refers to some of the modules, how it does, in the
/// order of the keys.
pub open spec fn maps_modules<T: ProcessMapping>(
    modules: Seq<PathModule>,
    paths: Seq<Seq<char>>,
    map: Map<i32, Vec<T>>,
) -> bool {
    forall|pid: i32|
        {
            &&& #[trigger] map.contains_key(pid) <==> mappings::<T>(modules, paths, pid).len() > 0
            &&& map.contains_key(pid) ==> map[pid].deep_view() == crate::sort::stable_sorted::<T>(
                mappings::<T>(modules, paths, pid),
            )
        }
}

proof fn lemma_maps_modules<T: ProcessMapping>(
    modules: Seq<PathModule>,
    paths: Seq<Seq<char>>,
    entries: Seq<(i32, <T as DeepView>::V)>,
    map: Map<i32, Vec<T>>,
)
    requires
        forall|pid: i32| #[trigger]
            super::by_pid::of_pid(entries, pid) == mappings::<T>(modules, paths, pid),
        super::by_pid::is_sorted_grouping::<T>(entries, map),
    ensures
        maps_modules::<T>(modules, paths, map),
{
    assert forall|pid: i32|
        {
            &&& #[trigger] map.contains_key(pid) <==> mappings::<T>(modules, paths, pid).len() > 0
            &&& map.contains_key(pid) ==> map[pid].deep_view() == crate::sort::stable_sorted::<T>(
                mappings::<T>(modules, paths, pid),
            )
        } by {
        assert(super::by_pid::of_pid(entries, pid) == mappings::<T>(modules, paths, pid));
    }
}

// ---------------------------------------------------------------------------------------------
// Debug info
// ---------------------------------------------------------------------------------------------

/// Whether the modules have files whose addresses are in range.
pub open spec fn infos_of_modules(
    modules: Seq<PathModule>,
    files: Seq<ModuleFiles>,
    infos: Seq<Option<ModuleDebugInfo>>,
) -> bool {
    &&& infos.len() == modules.len()
    &&& forall|i: int|
        0 <= i < modules.len() ==> super::debug_info::info_of_module(
            modules[i].0@,
            modules[i].1,
            files[i],
            #[trigger] infos[i],
        )
}

/// Whether a module has an address that is out of range.
pub open spec fn address_out_of_range(module: LoadedModule, files: ModuleFiles) -> bool {
    module.module_symbols is Some && files.content is Some && !super::debug_info::addresses_fit(
        module.module_symbols->0.deep_view(),
        files.content->0@,
        super::debug_info::debug_bytes(files),
    )
}

/// The debug info of each module, or `None` where an address of one of them is out of range.
pub fn debug_info_by_path(modules: &Vec<PathModule>, files: &Vec<ModuleFiles>) -> (r: Option<
    Vec<Option<ModuleDebugInfo>>,
>)
    requires
        modules@.len() == files@.len(),
    ensures
        match r {
            Some(infos) => infos_of_modules(modules@, files@, infos@),
            None => exists|i: int|
                0 <= i < modules@.len() && address_out_of_range(
                    (#[trigger] modules@[i]).1,
                    files@[i],
                ),
        },
{
    let mut out: Vec<Option<ModuleDebugInfo>> = Vec::new();
    let mut i: usize = 0;
    while i < modules.len()
        invariant
            modules@.len() == files@.len(),
            i <= modules@.len(),
            out@.len() == i,
            forall|j: int|
                0 <= j < i ==> super::debug_info::info_of_module(
                    modules@[j].0@,
                    modules@[j].1,
                    files@[j],
                    #[trigger] out@[j],
                ),
        decreases modules.len() - i,
    {
        match debug_info_of_module(modules[i].0.as_str(), &modules[i].1, &files[i]) {
            Some(info) => {
                out.push(info);
            },
            None => {
                assert(address_out_of_range(modules@[i as int].1, files@[i as int]));
                return None;
            },
        }
        i = i + 1;
    }
    Some(out)
}

/// The debug info of the modules that have some, under their keys.
pub open spec fn keyed_infos(
    modules: Seq<PathModule>,
    infos: Seq<Option<ModuleDebugInfo>>,
    paths: Seq<Seq<char>>,
) -> Seq<(Seq<char>, ModuleDebugInfo)>
    decreases modules.len(),
{
    if modules.len() == 0 {
        seq![]
    } else {
        let rest = keyed_infos(modules.drop_last(), infos, paths);
        match infos[modules.len() - 1] {
            Some(info) => rest.push((super::path_keys::key_of(paths, modules.last().0@), info)),
            None => rest,
        }
    }
}

/// Pairs with the texts of their keys.
pub open spec fn with_key_text<T>(pairs: Seq<(String, T)>) -> Seq<(Seq<char>, T)> {
    Seq::new(pairs.len(), |i: int| (pairs[i].0@, pairs[i].1))
}

/// The modules that have debug info.
pub open spec fn with_info(modules: Seq<PathModule>, infos: Seq<Option<ModuleDebugInfo>>) -> Seq<
    PathModule,
>
    decreases modules.len(),
{
    if modules.len() == 0 {
        seq![]
    } else {
        let rest = with_info(modules.drop_last(), infos);
        match infos[modules.len() - 1] {
            Some(_) => rest.push(modules.last()),
            None => rest,
        }
    }
}

/// Whether every key by which a process refers to debug info is one that debug info is kept under.
pub open spec fn refer_to_kept_info(
    debug_info: Seq<(String, ModuleDebugInfo)>,
    map: Map<i32, Vec<MappedProcessDebugInfo>>,
) -> bool {
    forall|pid: i32, k: int|
        map.contains_key(pid) && 0 <= k < map[pid]@.len() ==> is_kept_under(
            debug_info,
            (#[trigger] map[pid]@[k]).debug_info_key@,
        )
}

/// Whether debug info is kept under `key`.
pub open spec fn is_kept_under(debug_info: Seq<(String, ModuleDebugInfo)>, key: Seq<char>) -> bool {
    exists|i: int| 0 <= i < debug_info.len() && (#[trigger] debug_info[i]).0@ == key
}

/// A process refers to debug info by the key of a module that has some.
proof fn lemma_mapped_keys(
    modules: Seq<PathModule>,
    infos: Seq<Option<ModuleDebugInfo>>,
    paths: Seq<Seq<char>>,
    pid: i32,
    k: int,
)
    requires
        0 <= k < mappings::<MappedProcessDebugInfo>(with_info(modules, infos), paths, pid).len(),
    ensures
        exists|i: int|
            0 <= i < keyed_infos(modules, infos, paths).len() && (#[trigger] keyed_infos(
                modules,
                infos,
                paths,
            )[i]).0 == mappings::<MappedProcessDebugInfo>(
                with_info(modules, infos),
                paths,
                pid,
            )[k].debug_info_key,
    decreases modules.len(),
{
    if modules.len() > 0 {
        let before = modules.drop_last();
        let all = keyed_infos(modules, infos, paths);
        let rest = keyed_infos(before, infos, paths);
        let refs = mappings::<MappedProcessDebugInfo>(with_info(modules, infos), paths, pid);
        let rest_refs = mappings::<MappedProcessDebugInfo>(with_info(before, infos), paths, pid);
        if infos[modules.len() - 1] is Some {
            assert(with_info(modules, infos).drop_last() =~= with_info(before, infos));
            assert(with_info(modules, infos).last() == modules.last());
        }
        if k < rest_refs.len() {
            assert(refs[k] == rest_refs[k]);
            lemma_mapped_keys(before, infos, paths, pid, k);
            let i = choose|i: int|
                0 <= i < rest.len() && (#[trigger] rest[i]).0 == rest_refs[k].debug_info_key;
            assert(all[i] == rest[i]);
        } else {
            assert(all[rest.len() as int].0 == refs[k].debug_info_key);
        }
    }
}

/// What processes refer to is kept.
proof fn lemma_refer_to_kept_info(
    modules: Seq<PathModule>,
    infos: Seq<Option<ModuleDebugInfo>>,
    paths: Seq<Seq<char>>,
    debug_info: Seq<(String, ModuleDebugInfo)>,
    map: Map<i32, Vec<MappedProcessDebugInfo>>,
)
    requires
        with_key_text(debug_info) == keyed_infos(modules, infos, paths),
        maps_modules::<MappedProcessDebugInfo>(with_info(modules, infos), paths, map),
    ensures
        refer_to_kept_info(debug_info, map),
{
    broadcast use vstd::seq_lib::group_to_multiset_ensures;

    assert forall|pid: i32, k: int|
        map.contains_key(pid) && 0 <= k < map[pid]@.len() implies is_kept_under(
        debug_info,
        (#[trigger] map[pid]@[k]).debug_info_key@,
    ) by {
        let refs = mappings::<MappedProcessDebugInfo>(with_info(modules, infos), paths, pid);
        let sorted = map[pid].deep_view();
        assert(sorted == crate::sort::stable_sorted::<MappedProcessDebugInfo>(refs));
        crate::sort::law_sorted_form_is_a_stable_sort::<MappedProcessDebugInfo>(refs);
        assert(sorted.contains(sorted[k]));
        assert(refs.to_multiset().contains(sorted[k]));
        assert(refs.contains(sorted[k]));
        let m = choose|m: int| 0 <= m < refs.len() && refs[m] == sorted[k];
        lemma_mapped_keys(modules, infos, paths, pid, m);
        let all = keyed_infos(modules, infos, paths);
        let i = choose|i: int| 0 <= i < all.len() && (#[trigger] all[i]).0 == refs[m].debug_info_key;
        assert(with_key_text(debug_info)[i] == all[i]);
        assert(debug_info[i].0@ == map[pid]@[k].debug_info_key@);
    }
}

/// The debug info of the modules under their keys, and how the processes refer to it.
fn save_debug_info(
    modules: &Vec<PathModule>,
    infos: Vec<Option<ModuleDebugInfo>>,
    keys: &PathKeys,
) -> (r: (Vec<(String, ModuleDebugInfo)>, HashMap<i32, Vec<MappedProcessDebugInfo>>))
    requires
        keys.wf(),
        have_keys(modules@, keys@),
        infos@.len() == modules@.len(),
    ensures
        with_key_text(r.0@) == keyed_infos(modules@, infos@, keys@),
        maps_modules::<MappedProcessDebugInfo>(with_info(modules@, infos@), keys@, r.1@),
        refer_to_kept_info(r.0@, r.1@),
{
    let ghost all = infos@;
    let mut out: Vec<(String, ModuleDebugInfo)> = Vec::new();
    let mut entries: Vec<(i32, MappedProcessDebugInfo)> = Vec::new();
    assert(modules@.take(0) =~= seq![]);
    assert(with_key_text(out@) =~= seq![]);
    let mut i: usize = 0;
    for info in it: infos
        invariant
            keys.wf(),
            have_keys(modules@, keys@),
            it.seq() == all,
            all.len() == modules@.len(),
            i == it.index(),
            i <= modules@.len(),
            with_key_text(out@) == keyed_infos(modules@.take(i as int), all, keys@),
            forall|pid: i32| #[trigger]
                super::by_pid::of_pid(entries.deep_view(), pid) == mappings::<
                    MappedProcessDebugInfo,
                >(with_info(modules@.take(i as int), all), keys@, pid),
    {
        let ghost before = out@;
        let ghost done = with_info(modules@.take(i as int), all);
        let ghost next = with_info(modules@.take(i + 1), all);
        assert(modules.len() == modules@.len());
        assert(modules@.take(i + 1).drop_last() =~= modules@.take(i as int));
        assert(modules@.take(i + 1).last() == modules@[i as int]);
        if let Some(info) = info {
            assert(super::path_keys::has_path(keys@, modules@[i as int].0@));
            if let Some(key) = keys.get(modules[i].0.as_str()) {
                let ghost entries_before = entries.deep_view();
                assert(next.drop_last() =~= done);
                assert(next.last() == modules@[i as int]);
                add_module(&mut entries, &modules[i].1, key.as_str());
                assert forall|pid: i32| #[trigger]
                    super::by_pid::of_pid(entries.deep_view(), pid) == mappings::<
                        MappedProcessDebugInfo,
                    >(next, keys@, pid) by {
                    assert(super::by_pid::of_pid(entries_before, pid) == mappings::<
                        MappedProcessDebugInfo,
                    >(done, keys@, pid));
                }
                out.push((key, info));
                assert(with_key_text(out@) =~= with_key_text(before).push((key@, info)));
            }
        }
        i = i + 1;
    }
    assert(modules@.take(modules@.len() as int) =~= modules@);
    let map = group_sorted(entries);
    proof {
        lemma_maps_modules::<MappedProcessDebugInfo>(
            with_info(modules@, all),
            keys@,
            entries.deep_view(),
            map@,
        );
        lemma_refer_to_kept_info(modules@, all, keys@, out@, map@);
    }
    (out, map)
}

// ---------------------------------------------------------------------------------------------
// Unwind data
// ---------------------------------------------------------------------------------------------

/// Where unwind data that is stored comes from.
#[derive(Debug, Clone, Copy, PartialEq, Eq)]
pub enum UnwindSource {
    /// The module at this position.
    Module(usize),
    /// The process at the first position and its data at the second.
    Jit(usize, usize),
}

/// One piece of compiled code: its process, its path, how its unwind data applies and where it
/// comes from.
#[derive(Debug)]
pub struct JitRow {
    pub pid: i32,
    pub path: String,
    pub inner: ProcessUnwindData,
    pub source: UnwindSource,
}

pub struct JitRowView {
    pub pid: i32,
    pub path: Seq<char>,
    pub inner: ProcessUnwindData,
    pub source: UnwindSource,
}

impl DeepView for JitRow {
    type V = JitRowView;

    open spec fn deep_view(&self) -> JitRowView {
        JitRowView { pid: self.pid, path: self.path@, inner: self.inner, source: self.source }
    }
}

/// The pieces of code of the process at position `i`.
pub open spec fn rows_of_process(jit: Seq<PidJitData>, i: int) -> Seq<JitRowView> {
    Seq::new(
        jit[i].1@.len(),
        |j: int|
            JitRowView {
                pid: jit[i].0,
                path: jit[i].1@[j].0.path@,
                inner: jit[i].1@[j].1,
                source: UnwindSource::Jit(i as usize, j as usize),
            },
    )
}

/// The pieces of code of the first `n` processes.
pub open spec fn jit_rows(jit: Seq<PidJitData>, n: int) -> Seq<JitRowView>
    decreases n,
{
    if n <= 0 {
        seq![]
    } else {
        jit_rows(jit, n - 1) + rows_of_process(jit, n - 1)
    }
}

/// The paths of pieces of code.
pub open spec fn row_paths(rows: Seq<JitRowView>) -> Seq<Seq<char>> {
    Seq::new(rows.len(), |i: int| rows[i].path)
}

/// How the processes refer to the unwind data of the code they compiled.
pub open spec fn jit_mappings(rows: Seq<JitRowView>, paths: Seq<Seq<char>>) -> Seq<
    (i32, MappedProcessUnwindDataView),
> {
    Seq::new(
        rows.len(),
        |i: int|
            (
                rows[i].pid,
                MappedProcessUnwindDataView {
                    unwind_data_key: super::path_keys::key_of(paths, rows[i].path),
                    inner: rows[i].inner,
                },
            ),
    )
}

/// The keys that the unwind data of the modules is stored under.
pub open spec fn module_unwind_files(modules: Seq<PathModule>, paths: Seq<Seq<char>>) -> Seq<
    (Seq<char>, UnwindSource),
>
    decreases modules.len(),
{
    if modules.len() == 0 {
        seq![]
    } else {
        let rest = module_unwind_files(modules.drop_last(), paths);
        if modules.last().1.unwind_data is Some {
            rest.push(
                (
                    super::path_keys::key_of(paths, modules.last().0@),
                    UnwindSource::Module((modules.len() - 1) as usize),
                ),
            )
        } else {
            rest
        }
    }
}

/// The keys that the unwind data of compiled code is stored under.
pub open spec fn jit_unwind_files(rows: Seq<JitRowView>, paths: Seq<Seq<char>>) -> Seq<
    (Seq<char>, UnwindSource),
> {
    Seq::new(
        rows.len(),
        |i: int| (super::path_keys::key_of(paths, rows[i].path), rows[i].source),
    )
}

/// Whether `map` holds, for each process that refers to unwind data of modules or of the code it
/// compiled, how it does, in the order of the keys.
pub open spec fn maps_unwind_data(
    modules: Seq<PathModule>,
    rows: Seq<JitRowView>,
    paths: Seq<Seq<char>>,
    map: Map<i32, Vec<MappedProcessUnwindData>>,
) -> bool {
    forall|pid: i32|
        {
            let all = mappings::<MappedProcessUnwindData>(modules, paths, pid)
                + super::by_pid::of_pid(jit_mappings(rows, paths), pid);
            &&& #[trigger] map.contains_key(pid) <==> all.len() > 0
            &&& map.contains_key(pid) ==> map[pid].deep_view() == crate::sort::stable_sorted::<
                MappedProcessUnwindData,
            >(all)
        }
}

/// The pieces of code of all processes.
fn flatten_jit(jit: &Vec<PidJitData>) -> (r: Vec<JitRow>)
    ensures
        r.deep_view() == jit_rows(jit@, jit@.len() as int),
{
    let mut out: Vec<JitRow> = Vec::new();
    let mut i: usize = 0;
    assert(out.deep_view() =~= seq![]);
    while i < jit.len()
        invariant
            i <= jit@.len(),
            out.deep_view() == jit_rows(jit@, i as int),
        decreases jit.len() - i,
    {
        let ghost done = out.deep_view();
        let ghost row = rows_of_process(jit@, i as int);
        let mut j: usize = 0;
        assert(done + row.take(0) =~= done);
        while j < jit[i].1.len()
            invariant
                i < jit@.len(),
                j <= jit@[i as int].1@.len(),
                row == rows_of_process(jit@, i as int),
                out.deep_view() == done + row.take(j as int),
            decreases jit[i as int].1.len() - j,
        {
            let ghost before = out;
            let data = &jit[i].1[j];
            out.push(
                JitRow {
                    pid: jit[i].0,
                    path: data.0.path.clone(),
                    inner: data.1.clone(),
                    source: UnwindSource::Jit(i, j),
                },
            );
            proof {
                crate::list::lemma_deep_push(before, out@.last(), out);
                crate::list::lemma_take_push(row, j as int);
                assert(out.deep_view() =~= done + row.take(j + 1));
            }
            j = j + 1;
        }
        assert(row.take(row.len() as int) =~= row);
        i = i + 1;
    }
    out
}

/// Where the unwind data is stored, and how the processes refer to it.
fn save_unwind_data(modules: &Vec<PathModule>, rows: Vec<JitRow>, keys: &PathKeys) -> (r: (
    Vec<(String, UnwindSource)>,
    HashMap<i32, Vec<MappedProcessUnwindData>>,
))
    requires
        keys.wf(),
        have_keys(modules@, keys@),
        forall|i: int| 0 <= i < rows@.len() ==> super::path_keys::has_path(
            keys@,
            (#[trigger] rows@[i]).path@,
        ),
    ensures
        with_key_text(r.0@) == module_unwind_files(modules@, keys@) + jit_unwind_files(
            rows.deep_view(),
            keys@,
        ),
        maps_unwind_data(modules@, rows.deep_view(), keys@, r.1@),
{
    let mut files: Vec<(String, UnwindSource)> = Vec::new();
    let mut i: usize = 0;
    assert(modules@.take(0) =~= seq![]);
    assert(with_key_text(files@) =~= seq![]);
    while i < modules.len()
        invariant
            keys.wf(),
            have_keys(modules@, keys@),
            i <= modules@.len(),
            with_key_text(files@) == module_unwind_files(modules@.take(i as int), keys@),
        decreases modules.len() - i,
    {
        let ghost before = files@;
        assert(modules@.take(i + 1).drop_last() =~= modules@.take(i as int));
        assert(modules@.take(i + 1).last() == modules@[i as int]);
        if modules[i].1.unwind_data.is_some() {
            assert(super::path_keys::has_path(keys@, modules@[i as int].0@));
            if let Some(key) = keys.get(modules[i].0.as_str()) {
                files.push((key, UnwindSource::Module(i)));
                assert(with_key_text(files@) =~= with_key_text(before).push(
                    (key@, UnwindSource::Module(i)),
                ));
            }
        }
        i = i + 1;
    }
    assert(modules@.take(modules@.len() as int) =~= modules@);
    let mut entries = map_modules::<MappedProcessUnwindData>(modules, keys);
    let ghost from_modules = entries.deep_view();
    let ghost module_files = with_key_text(files@);
    let ghost all = rows.deep_view();
    let ghost jit = jit_mappings(all, keys@);
    let ghost jit_files = jit_unwind_files(all, keys@);
    assert(from_modules + jit.take(0) =~= from_modules);
    assert(module_files + jit_files.take(0) =~= module_files);
    let ghost owned = rows@;
    for row in it: rows
        invariant
            keys.wf(),
            it.seq() == owned,
            all.len() == owned.len(),
            forall|i: int| 0 <= i < owned.len() ==> super::path_keys::has_path(
                keys@,
                (#[trigger] owned[i]).path@,
            ),
            forall|i: int| 0 <= i < all.len() ==> all[i] == (#[trigger] owned[i]).deep_view(),
            jit == jit_mappings(all, keys@),
            jit_files == jit_unwind_files(all, keys@),
            entries.deep_view() == from_modules + jit.take(it.index()),
            with_key_text(files@) == module_files + jit_files.take(it.index()),
    {
        let ghost n = it.index();
        let ghost before = entries;
        let ghost files_before = files@;
        assert(all[n] == owned[n].deep_view());
        assert(super::path_keys::has_path(keys@, owned[n].path@));
        if let Some(key) = keys.get(row.path.as_str()) {
            files.push((key.clone(), row.source));
            assert(with_key_text(files@) =~= with_key_text(files_before).push((key@, row.source)));
            entries.push(
                (row.pid, MappedProcessUnwindData { unwind_data_key: key, inner: row.inner }),
            );
            proof {
                crate::list::lemma_deep_push(before, entries@.last(), entries);
                crate::list::lemma_take_push(jit, n);
                crate::list::lemma_take_push(jit_files, n);
                assert(entries.deep_view() =~= from_modules + jit.take(n + 1));
                assert(with_key_text(files@) =~= module_files + jit_files.take(n + 1));
            }
        }
    }
    assert(jit.take(jit.len() as int) =~= jit);
    assert(jit_files.take(jit_files.len() as int) =~= jit_files);
    let map = group_sorted(entries);
    proof {
        assert forall|pid: i32|
            {
                let all_of = mappings::<MappedProcessUnwindData>(modules@, keys@, pid)
                    + super::by_pid::of_pid(jit_mappings(all, keys@), pid);
                &&& #[trigger] map@.contains_key(pid) <==> all_of.len() > 0
                &&& map@.contains_key(pid) ==> map@[pid].deep_view()
                    == crate::sort::stable_sorted::<MappedProcessUnwindData>(all_of)
            } by {
            super::by_pid::lemma_of_pid_append(from_modules, jit, pid);
            assert(super::by_pid::of_pid(from_modules, pid) == mappings::<MappedProcessUnwindData>(
                modules@,
                keys@,
                pid,
            ));
        }
    }
    (files, map)
}

// ---------------------------------------------------------------------------------------------
// Ignored modules
// ---------------------------------------------------------------------------------------------

/// Whether the module at `path` is left out of profiles: a module that is listed, or Python.
pub open spec fn is_ignored(path: Seq<char>, ignore_paths: Seq<Seq<char>>) -> bool {
    ignore_paths.contains(path) || (crate::path::file_name_of(path) matches Some(name)
        && "python"@.is_prefix_of(name))
}

/// The least address and the greatest end of some symbols.
pub open spec fn bounds_of(s: Seq<super::module_symbols::SymbolView>) -> (u64, u64) {
    choose|b: (u64, u64)| super::module_symbols::tight_bounds(s, b)
}

proof fn lemma_bounds(s: Seq<super::module_symbols::SymbolView>, b: (u64, u64))
    requires
        super::module_symbols::tight_bounds(s, b),
    ensures
        bounds_of(s) == b,
        b.0 <= b.1,
{
    let c = bounds_of(s);
    assert(super::module_symbols::tight_bounds(s, c));
    let i = choose|i: int| 0 <= i < s.len() && (#[trigger] s[i]).addr == b.0;
    let j = choose|j: int| 0 <= j < s.len() && (#[trigger] s[j]).addr == c.0;
    let k = choose|k: int| 0 <= k < s.len() && (#[trigger] s[k]).addr + s[k].size == b.1;
    let l = choose|l: int| 0 <= l < s.len() && (#[trigger] s[l]).addr + s[l].size == c.1;
    assert(c.0 <= s[i].addr && b.0 <= s[j].addr);
    assert(s[k].addr + s[k].size <= c.1 && s[l].addr + s[l].size <= b.1);
    assert(b.0 <= s[k].addr);
}

/// The addresses that the module takes in the process `pid`, as far as its symbols tell.
pub open spec fn runtime_range(module: LoadedModule, pid: i32) -> Option<(u64, u64)> {
    match (module.module_symbols, load_bias_of(module, pid)) {
        (Some(symbols), Some(load_bias)) => if symbols.deep_view().len() > 0 {
            let b = bounds_of(symbols.deep_view());
            Some(((b.0 + load_bias) as u64, (b.1 + load_bias) as u64))
        } else {
            None
        },
        _ => None,
    }
}

/// The ignored modules in the process `pid`, with the addresses that they take.
pub open spec fn ignored_ranges(
    modules: Seq<PathModule>,
    ignore_paths: Seq<Seq<char>>,
    pid: i32,
) -> Seq<(Seq<char>, u64, u64)>
    decreases modules.len(),
{
    if modules.len() == 0 {
        seq![]
    } else {
        let rest = ignored_ranges(modules.drop_last(), ignore_paths, pid);
        let path = modules.last().0@;
        if is_ignored(path, ignore_paths) {
            match runtime_range(modules.last().1, pid) {
                Some((start, end)) => rest.push((path, start, end)),
                None => rest,
            }
        } else {
            rest
        }
    }
}

/// Whether the symbols of an ignored module end before the last address, also in the processes
/// that loaded it.
pub open spec fn range_fits(module: LoadedModule) -> bool {
    module.module_symbols matches Some(symbols) ==> {
        let s = symbols.deep_view();
        &&& super::module_symbols::ends_fit(s)
        &&& s.len() > 0 ==> forall|pid: i32|
            (#[trigger] load_bias_of(module, pid)) matches Some(load_bias) ==> bounds_of(s).1
                + load_bias <= u64::MAX
    }
}

/// Whether the ignored modules end before the last address.
pub open spec fn ignored_fit(modules: Seq<PathModule>, ignore_paths: Seq<Seq<char>>) -> bool {
    forall|i: int|
        0 <= i < modules.len() && is_ignored((#[trigger] modules[i]).0@, ignore_paths)
            ==> range_fits(modules[i].1)
}

/// The ignored modules of each process, with the addresses that they take.
pub fn collect_ignored_modules(modules: &Vec<PathModule>, ignore_paths: &Vec<String>) -> (r: HashMap<
    i32,
    Vec<(String, u64, u64)>,
>)
    requires
        ignored_fit(modules@, ignore_paths.deep_view()),
    ensures
        forall|pid: i32|
            {
                let ranges = ignored_ranges(modules@, ignore_paths.deep_view(), pid);
                &&& #[trigger] r@.contains_key(pid) <==> ranges.len() > 0
                &&& r@.contains_key(pid) ==> r@[pid].deep_view() == ranges
            },
{
    let ghost ignore = ignore_paths.deep_view();
    let mut out: Vec<(i32, (String, u64, u64))> = Vec::new();
    let mut i: usize = 0;
    assert(modules@.take(0) =~= seq![]);
    while i < modules.len()
        invariant
            ignore == ignore_paths.deep_view(),
            ignored_fit(modules@, ignore),
            i <= modules@.len(),
            forall|pid: i32| #[trigger]
                super::by_pid::of_pid(out.deep_view(), pid) == ignored_ranges(
                    modules@.take(i as int),
                    ignore,
                    pid,
                ),
        decreases modules.len() - i,
    {
        let ghost done = modules@.take(i as int);
        let ghost next = modules@.take(i + 1);
        assert(next.drop_last() =~= done);
        assert(next.last() == modules@[i as int]);
        let module = &modules[i].1;
        let path = modules[i].0.as_str();
        if module_is_ignored(path, ignore_paths) {
            if let Some(symbols) = &module.module_symbols {
                assert(range_fits(modules@[i as int].1));
                if let Some((start, end)) = symbols.addr_bounds() {
                    proof {
                        lemma_bounds(symbols.deep_view(), (start, end));
                    }
                    push_ranges(module, path, start, end, &mut out);
                    assert forall|pid: i32| #[trigger]
                        super::by_pid::of_pid(out.deep_view(), pid) == ignored_ranges(
                            next,
                            ignore,
                            pid,
                        ) by {}
                }
            }
        }
        i = i + 1;
    }
    assert(modules@.take(modules@.len() as int) =~= modules@);
    let map = group(out);
    proof {
        assert forall|pid: i32|
            {
                let ranges = ignored_ranges(modules@, ignore, pid);
                &&& #[trigger] map@.contains_key(pid) <==> ranges.len() > 0
                &&& map@.contains_key(pid) ==> map@[pid].deep_view() == ranges
            } by {
            assert(super::by_pid::of_pid(out.deep_view(), pid) == ignored_ranges(
                modules@,
                ignore,
                pid,
            ));
        }
    }
    map
}

/// Whether the module at `path` is left out of profiles.
fn module_is_ignored(path: &str, ignore_paths: &Vec<String>) -> (r: bool)
    ensures
        r == is_ignored(path@, ignore_paths.deep_view()),
{
    if contains_str(ignore_paths, path) {
        return true;
    }
    match file_name(path) {
        Some(name) => starts_with(name.as_str(), "python"),
        None => false,
    }
}

/// Adds the addresses that a module takes in each process.
fn push_ranges(
    module: &LoadedModule,
    path: &str,
    start: u64,
    end: u64,
    out: &mut Vec<(i32, (String, u64, u64))>,
)
    requires
        start <= end,
        forall|pid: i32|
            (#[trigger] load_bias_of(*module, pid)) matches Some(load_bias) ==> end + load_bias
                <= u64::MAX,
    ensures
        forall|pid: i32| #[trigger]
            super::by_pid::of_pid(final(out).deep_view(), pid) == (match load_bias_of(*module, pid) {
                Some(load_bias) => super::by_pid::of_pid(old(out).deep_view(), pid).push(
                    (path@, (start + load_bias) as u64, (end + load_bias) as u64),
                ),
                None => super::by_pid::of_pid(old(out).deep_view(), pid),
            }),
{
    let ghost base = out.deep_view();
    let pids = module.pids();
    let mut j: usize = 0;
    while j < pids.len()
        invariant
            j <= pids@.len(),
            pids@.no_duplicates(),
            start <= end,
            forall|pid: i32|
                (#[trigger] load_bias_of(*module, pid)) matches Some(load_bias) ==> end + load_bias
                    <= u64::MAX,
            forall|pid: i32| #[trigger]
                super::by_pid::of_pid(out.deep_view(), pid) == (if pids@.take(j as int).contains(
                    pid,
                ) && load_bias_of(*module, pid) is Some {
                    super::by_pid::of_pid(base, pid).push(
                        (
                            path@,
                            (start + load_bias_of(*module, pid)->0) as u64,
                            (end + load_bias_of(*module, pid)->0) as u64,
                        ),
                    )
                } else {
                    super::by_pid::of_pid(base, pid)
                }),
        decreases pids.len() - j,
    {
        let pid: i32 = pids[j];
        let ghost before = *out;
        let ghost seen = pids@.take(j as int);
        let ghost now = pids@.take(j + 1);
        assert(now =~= seen.push(pid));
        assert(now[j as int] == pid);
        assert(!seen.contains(pid)) by {
            if seen.contains(pid) {
                let k = choose|k: int| 0 <= k < seen.len() && seen[k] == pid;
                assert(pids@[k] == pids@[j as int]);
            }
        }
        let bias = load_bias(module, pid);
        let ghost mut added: Option<(i32, (Seq<char>, u64, u64))> = None;
        if let Some(load_bias) = bias {
            let entry = (pid, (path.to_owned(), start + load_bias, end + load_bias));
            proof {
                added = Some(entry.deep_view());
            }
            out.push(entry);
            proof {
                crate::list::lemma_deep_push(before, entry, *out);
            }
        }
        assert forall|p: i32| #[trigger]
            super::by_pid::of_pid(out.deep_view(), p) == (if now.contains(p) && load_bias_of(
                *module,
                p,
            ) is Some {
                super::by_pid::of_pid(base, p).push(
                    (
                        path@,
                        (start + load_bias_of(*module, p)->0) as u64,
                        (end + load_bias_of(*module, p)->0) as u64,
                    ),
                )
            } else {
                super::by_pid::of_pid(base, p)
            }) by {
            let earlier = super::by_pid::of_pid(before.deep_view(), p);
            if added is Some {
                super::by_pid::lemma_of_pid_push(before.deep_view(), added->0, p);
            }
            if p != pid {
                if now.contains(p) {
                    let k = choose|k: int| 0 <= k < now.len() && now[k] == p;
                    assert(seen[k] == p);
                }
                if seen.contains(p) {
                    let k = choose|k: int| 0 <= k < seen.len() && seen[k] == p;
                    assert(now[k] == p);
                }
            }
        }
        j = j + 1;
    }
    proof {
        assert(pids@.take(j as int) =~= pids@);
        assert forall|pid: i32| #[trigger]
            super::by_pid::of_pid(out.deep_view(), pid) == (match load_bias_of(*module, pid) {
                Some(load_bias) => super::by_pid::of_pid(base, pid).push(
                    (path@, (start + load_bias) as u64, (end + load_bias) as u64),
                ),
                None => super::by_pid::of_pid(base, pid),
            }) by {
            if !pids@.contains(pid) {
                assert(!pids@.to_set().contains(pid));
            }
        }
    }
}

// ---------------------------------------------------------------------------------------------
// All artifacts
// ---------------------------------------------------------------------------------------------

/// What is stored of the modules, and how the processes refer to it.
#[derive(Debug)]
pub struct SavedArtifacts {
    pub symbol_pid_mappings_by_pid: HashMap<i32, Vec<MappedProcessModuleSymbols>>,
    /// The debug info of the modules, under their keys.
    pub debug_info: Vec<(String, ModuleDebugInfo)>,
    pub mapped_process_debug_info_by_pid: HashMap<i32, Vec<MappedProcessDebugInfo>>,
    pub mapped_process_unwind_data_by_pid: HashMap<i32, Vec<MappedProcessUnwindData>>,
    pub ignored_modules_by_pid: HashMap<i32, Vec<(String, u64, u64)>>,
    /// The paths that the keys belong to.
    pub key_to_path: Vec<(String, String)>,
    /// The files of symbols to be written.
    pub symbol_files: Vec<FileAppend>,
    /// The keys under which unwind data is to be written, with where it comes from.
    pub unwind_files: Vec<(String, UnwindSource)>,
}

/// The paths that have keys: those of the modules, and then those of compiled code.
pub open spec fn artifact_paths(modules: Seq<PathModule>, jit: Seq<PidJitData>) -> Seq<Seq<char>> {
    super::path_keys::all_registered(
        super::path_keys::all_registered(Seq::<Seq<char>>::empty(), module_paths(modules)),
        row_paths(jit_rows(jit, jit.len() as int)),
    )
}

/// Whether `entries` holds the key of each path, and the path.
pub open spec fn inverts_keys(paths: Seq<Seq<char>>, entries: Seq<(String, String)>) -> bool {
    &&& entries.len() == paths.len()
    &&& forall|i: int|
        0 <= i < entries.len() ==> (#[trigger] entries[i]).0@ == super::path_keys::key_of(
            paths,
            paths[i],
        ) && entries[i].1@ == paths[i]
}

/// What is stored of the modules and of compiled code. `infos` holds the debug info of each module
/// that has some.
pub fn save_artifacts(
    profile_folder: &str,
    modules: &Vec<PathModule>,
    infos: Vec<Option<ModuleDebugInfo>>,
    jit: &Vec<PidJitData>,
    ignore_paths: &Vec<String>,
) -> (r: SavedArtifacts)
    requires
        infos@.len() == modules@.len(),
        ignored_fit(modules@, ignore_paths.deep_view()),
    ensures
        maps_modules::<MappedProcessModuleSymbols>(
            modules@,
            artifact_paths(modules@, jit@),
            r.symbol_pid_mappings_by_pid@,
        ),
        with_key_text(r.debug_info@) == keyed_infos(
            modules@,
            infos@,
            artifact_paths(modules@, jit@),
        ),
        maps_modules::<MappedProcessDebugInfo>(
            with_info(modules@, infos@),
            artifact_paths(modules@, jit@),
            r.mapped_process_debug_info_by_pid@,
        ),
        refer_to_kept_info(r.debug_info@, r.mapped_process_debug_info_by_pid@),
        maps_unwind_data(
            modules@,
            jit_rows(jit@, jit@.len() as int),
            artifact_paths(modules@, jit@),
            r.mapped_process_unwind_data_by_pid@,
        ),
        forall|pid: i32|
            {
                let ranges = ignored_ranges(modules@, ignore_paths.deep_view(), pid);
                &&& #[trigger] r.ignored_modules_by_pid@.contains_key(pid) <==> ranges.len() > 0
                &&& r.ignored_modules_by_pid@.contains_key(pid)
                    ==> r.ignored_modules_by_pid@[pid].deep_view() == ranges
            },
        inverts_keys(artifact_paths(modules@, jit@), r.key_to_path@),
        r.symbol_files.deep_view() == symbol_files(
            profile_folder@,
            modules@,
            artifact_paths(modules@, jit@),
        ),
        with_key_text(r.unwind_files@) == module_unwind_files(
            modules@,
            artifact_paths(modules@, jit@),
        ) + jit_unwind_files(
            jit_rows(jit@, jit@.len() as int),
            artifact_paths(modules@, jit@),
        ),
{
    let mut keys = PathKeys::new();
    register_paths(&mut keys, modules);
    let ghost module_keys = keys@;
    let rows = flatten_jit(jit);
    let ghost views = rows.deep_view();
    let ghost paths = row_paths(views);
    let mut i: usize = 0;
    assert(paths.take(0) =~= seq![]);
    while i < rows.len()
        invariant
            keys.wf(),
            views == rows.deep_view(),
            paths == row_paths(views),
            i <= rows@.len(),
            keys@ == super::path_keys::all_registered(module_keys, paths.take(i as int)),
        decreases rows.len() - i,
    {
        assert(paths.take(i + 1).drop_last() =~= paths.take(i as int));
        assert(paths.take(i + 1).last() == rows@[i as int].path@);
        let _ = keys.get_or_insert_key(rows[i].path.as_str());
        i = i + 1;
    }
    assert(paths.take(paths.len() as int) =~= paths);
    proof {
        super::path_keys::lemma_all_registered(module_keys, paths);
        assert forall|i: int| 0 <= i < modules@.len() implies super::path_keys::has_path(
            keys@,
            (#[trigger] modules@[i]).0@,
        ) by {
            assert(super::path_keys::has_path(module_keys, modules@[i].0@));
        }
        assert forall|i: int| 0 <= i < rows@.len() implies super::path_keys::has_path(
            keys@,
            (#[trigger] rows@[i]).path@,
        ) by {
            assert(paths[i] == rows@[i].path@);
        }
    }
    let (files, symbol_pid_mappings_by_pid) = save_symbols(profile_folder, modules, &keys);
    let (debug_info, mapped_process_debug_info_by_pid) = save_debug_info(modules, infos, &keys);
    let (unwind_files, mapped_process_unwind_data_by_pid) = save_unwind_data(modules, rows, &keys);
    let ignored_modules_by_pid = collect_ignored_modules(modules, ignore_paths);
    SavedArtifacts {
        symbol_pid_mappings_by_pid,
        debug_info,
        mapped_process_debug_info_by_pid,
        mapped_process_unwind_data_by_pid,
        ignored_modules_by_pid,
        key_to_path: keys.entries(),
        symbol_files: files,
        unwind_files,
    }
}

/// The key that a process refers to a module by is that of a stored path, and no other path has
/// it.
pub proof fn law_keys_find_their_modules(
    modules: Seq<PathModule>,
    jit: Seq<PidJitData>,
    i: int,
    path: Seq<char>,
)
    requires
        0 <= i < modules.len(),
        super::path_keys::has_path(artifact_paths(modules, jit), path),
        super::path_keys::key_of(artifact_paths(modules, jit), path)
            == super::path_keys::key_of(artifact_paths(modules, jit), modules[i].0@),
    ensures
        super::path_keys::has_path(artifact_paths(modules, jit), modules[i].0@),
        crate::path::components_of(path) == crate::path::components_of(modules[i].0@),
{
    let first = super::path_keys::all_registered(
        Seq::<Seq<char>>::empty(),
        module_paths(modules),
    );
    let all = artifact_paths(modules, jit);
    super::path_keys::lemma_all_registered(Seq::<Seq<char>>::empty(), module_paths(modules));
    super::path_keys::lemma_all_registered(first, row_paths(jit_rows(jit, jit.len() as int)));
    assert(module_paths(modules)[i] == modules[i].0@);
    assert(super::path_keys::has_path(first, modules[i].0@));
    if crate::path::components_of(path) != crate::path::components_of(modules[i].0@) {
        super::path_keys::law_keys_identify_paths(all, path, modules[i].0@);
    }
}

/// A process refers to symbols only by keys under which a file of symbols is written.
pub proof fn law_symbol_references_have_files(
    profile_folder: Seq<char>,
    modules: Seq<PathModule>,
    paths: Seq<Seq<char>>,
    pid: i32,
    k: int,
)
    requires
        0 <= k < mappings::<MappedProcessModuleSymbols>(modules, paths, pid).len(),
    ensures
        exists|i: int|
            0 <= i < symbol_files(profile_folder, modules, paths).len() && (#[trigger] symbol_files(
                profile_folder,
                modules,
                paths,
            )[i]).0 == crate::path::joined_path(
                profile_folder,
                mappings::<MappedProcessModuleSymbols>(modules, paths, pid)[k].perf_map_key + seq!['.']
                    + SYMBOLS_MAP_SUFFIX@,
            ),
    decreases modules.len(),
{
    if modules.len() > 0 {
        let before = modules.drop_last();
        let all = symbol_files(profile_folder, modules, paths);
        let rest = symbol_files(profile_folder, before, paths);
        let refs = mappings::<MappedProcessModuleSymbols>(modules, paths, pid);
        let rest_refs = mappings::<MappedProcessModuleSymbols>(before, paths, pid);
        if k < rest_refs.len() {
            assert(refs[k] == rest_refs[k]);
            law_symbol_references_have_files(profile_folder, before, paths, pid, k);
            let i = choose|i: int|
                0 <= i < rest.len() && (#[trigger] rest[i]).0 == crate::path::joined_path(
                    profile_folder,
                    rest_refs[k].perf_map_key + seq!['.'] + SYMBOLS_MAP_SUFFIX@,
                );
            assert(all[i] == rest[i]);
        } else {
            assert(all[rest.len() as int].0 == crate::path::joined_path(
                profile_folder,
                refs[k].perf_map_key + seq!['.'] + SYMBOLS_MAP_SUFFIX@,
            ));
        }
    }
}

proof fn lemma_module_references(
    modules: Seq<PathModule>,
    paths: Seq<Seq<char>>,
    pid: i32,
    k: int,
)
    requires
        0 <= k < mappings::<MappedProcessUnwindData>(modules, paths, pid).len(),
    ensures
        exists|i: int|
            0 <= i < module_unwind_files(modules, paths).len() && (#[trigger] module_unwind_files(
                modules,
                paths,
            )[i]).0 == mappings::<MappedProcessUnwindData>(modules, paths, pid)[k].unwind_data_key,
    decreases modules.len(),
{
    if modules.len() > 0 {
        let before = modules.drop_last();
        let all = module_unwind_files(modules, paths);
        let rest = module_unwind_files(before, paths);
        let refs = mappings::<MappedProcessUnwindData>(modules, paths, pid);
        let rest_refs = mappings::<MappedProcessUnwindData>(before, paths, pid);
        if k < rest_refs.len() {
            assert(refs[k] == rest_refs[k]);
            lemma_module_references(before, paths, pid, k);
            let i = choose|i: int|
                0 <= i < rest.len() && (#[trigger] rest[i]).0 == rest_refs[k].unwind_data_key;
            assert(all[i] == rest[i]);
        } else {
            assert(all[rest.len() as int].0 == refs[k].unwind_data_key);
        }
    }
}

proof fn lemma_of_pid_item<V>(items: Seq<(i32, V)>, pid: i32, k: int)
    requires
        0 <= k < super::by_pid::of_pid(items, pid).len(),
    ensures
        exists|i: int|
            0 <= i < items.len() && (#[trigger] items[i]).1 == super::by_pid::of_pid(items, pid)[k],
    decreases items.len(),
{
    if items.len() > 0 {
        let before = items.drop_last();
        let rest = super::by_pid::of_pid(before, pid);
        if k < rest.len() {
            lemma_of_pid_item(before, pid, k);
            let i = choose|i: int| 0 <= i < before.len() && (#[trigger] before[i]).1 == rest[k];
            assert(items[i] == before[i]);
        } else {
            assert(items[items.len() - 1].1 == super::by_pid::of_pid(items, pid)[k]);
        }
    }
}

/// A process refers to unwind data only by keys under which unwind data is written, be it of a module
/// or of the code that it compiled.
pub proof fn law_unwind_references_have_files(
    modules: Seq<PathModule>,
    rows: Seq<JitRowView>,
    paths: Seq<Seq<char>>,
    pid: i32,
    k: int,
)
    requires
        0 <= k < (mappings::<MappedProcessUnwindData>(modules, paths, pid) + super::by_pid::of_pid(
            jit_mappings(rows, paths),
            pid,
        )).len(),
    ensures
        exists|i: int|
            0 <= i < (module_unwind_files(modules, paths) + jit_unwind_files(rows, paths)).len() && (
            #[trigger] (module_unwind_files(modules, paths) + jit_unwind_files(rows, paths))[i]).0 == (
            mappings::<MappedProcessUnwindData>(modules, paths, pid) + super::by_pid::of_pid(
                jit_mappings(rows, paths),
                pid,
            ))[k].unwind_data_key,
{
    let refs = mappings::<MappedProcessUnwindData>(modules, paths, pid);
    let jit = jit_mappings(rows, paths);
    let files = module_unwind_files(modules, paths);
    let jit_files = jit_unwind_files(rows, paths);
    let all = files + jit_files;
    if k < refs.len() {
        lemma_module_references(modules, paths, pid, k);
        let i = choose|i: int|
            0 <= i < files.len() && (#[trigger] files[i]).0 == refs[k].unwind_data_key;
        assert(all[i] == files[i]);
    } else {
        lemma_of_pid_item(jit, pid, k - refs.len());
        let i = choose|i: int|
            0 <= i < jit.len() && (#[trigger] jit[i]).1 == super::by_pid::of_pid(jit, pid)[k
                - refs.len()];
        assert(all[files.len() + i] == jit_files[i]);
        assert(jit_files[i].0 == jit[i].1.unwind_data_key);
    }
}

// ---------------------------------------------------------------------------------------------
// Laws
// ---------------------------------------------------------------------------------------------

/// Each module and each piece of compiled code has an entry among the keys, and all spellings of a
/// path have one entry.
pub proof fn law_every_path_has_a_key(
    folder: &str,
    modules: &Vec<PathModule>,
    infos: Vec<Option<ModuleDebugInfo>>,
    jit: &Vec<PidJitData>,
    ignore: &Vec<String>,
    r: SavedArtifacts,
    i: int,
    a: int,
    b: int,
)
    requires
        call_ensures(save_artifacts, (folder, modules, infos, jit, ignore), r),
    ensures
        0 <= i < modules@.len() ==> exists|k: int|
            0 <= k < r.key_to_path@.len() && crate::path::components_of(
                (#[trigger] r.key_to_path@[k]).1@,
            ) == crate::path::components_of(modules@[i].0@),
        0 <= a < jit@.len() && 0 <= b < jit@[a].1@.len() ==> exists|k: int|
            0 <= k < r.key_to_path@.len() && crate::path::components_of(
                (#[trigger] r.key_to_path@[k]).1@,
            ) == crate::path::components_of(jit@[a].1@[b].0.path@),
        forall|k: int, l: int|
            0 <= k < l < r.key_to_path@.len() ==> crate::path::components_of(
                (#[trigger] r.key_to_path@[k]).1@,
            ) != crate::path::components_of((#[trigger] r.key_to_path@[l]).1@)
                && r.key_to_path@[k].0@ != r.key_to_path@[l].0@,
{
    let paths = artifact_paths(modules@, jit@);
    lemma_artifact_paths(modules@, jit@);
    let entries = r.key_to_path@;
    if 0 <= i < modules@.len() {
        assert(super::path_keys::has_path(paths, modules@[i].0@));
        let k = super::path_keys::position_of(paths, modules@[i].0@);
        assert(super::path_keys::places(paths)[k] == crate::path::components_of(modules@[i].0@));
        assert(entries[k].1@ == paths[k]);
    }
    if 0 <= a < jit@.len() && 0 <= b < jit@[a].1@.len() {
        let rows = jit_rows(jit@, jit@.len() as int);
        lemma_jit_row(jit@, jit@.len() as int, a, b);
        let n = choose|n: int|
            0 <= n < rows.len() && #[trigger] rows[n] == rows_of_process(jit@, a)[b];
        assert(super::path_keys::has_path(paths, rows[n].path));
        let k = super::path_keys::position_of(paths, rows[n].path);
        assert(super::path_keys::places(paths)[k] == crate::path::components_of(rows[n].path));
        assert(entries[k].1@ == paths[k]);
    }
    assert forall|k: int, l: int| 0 <= k < l < entries.len() implies crate::path::components_of(
        (#[trigger] entries[k]).1@,
    ) != crate::path::components_of((#[trigger] entries[l]).1@) && entries[k].0@ != entries[l].0@ by {
        assert(super::path_keys::places(paths)[k] != super::path_keys::places(paths)[l]);
        super::path_keys::lemma_position(paths, k);
        super::path_keys::lemma_position(paths, l);
        super::path_keys::law_keys_identify_paths(paths, paths[k], paths[l]);
    }
}

proof fn lemma_jit_row(jit: Seq<PidJitData>, n: int, a: int, b: int)
    requires
        0 <= a < n <= jit.len(),
        0 <= b < jit[a].1@.len(),
    ensures
        exists|k: int|
            0 <= k < jit_rows(jit, n).len() && #[trigger] jit_rows(jit, n)[k] == rows_of_process(
                jit,
                a,
            )[b],
    decreases n,
{
    let rest = jit_rows(jit, n - 1);
    let all = jit_rows(jit, n);
    if a < n - 1 {
        lemma_jit_row(jit, n - 1, a, b);
        let k = choose|k: int|
            0 <= k < rest.len() && #[trigger] rest[k] == rows_of_process(jit, a)[b];
        assert(all[k] == rest[k]);
    } else {
        assert(all[rest.len() + b] == rows_of_process(jit, a)[b]);
    }
}

proof fn lemma_artifact_paths(modules: Seq<PathModule>, jit: Seq<PidJitData>)
    ensures
        super::path_keys::places(artifact_paths(modules, jit)).no_duplicates(),
        forall|i: int|
            0 <= i < modules.len() ==> super::path_keys::has_path(
                artifact_paths(modules, jit),
                (#[trigger] modules[i]).0@,
            ),
        forall|n: int|
            0 <= n < jit_rows(jit, jit.len() as int).len() ==> super::path_keys::has_path(
                artifact_paths(modules, jit),
                (#[trigger] jit_rows(jit, jit.len() as int)[n]).path,
            ),
{
    let none = Seq::<Seq<char>>::empty();
    let first = super::path_keys::all_registered(none, module_paths(modules));
    let rows = jit_rows(jit, jit.len() as int);
    super::path_keys::lemma_all_registered(none, module_paths(modules));
    super::path_keys::lemma_all_registered(first, row_paths(rows));
    assert forall|i: int| 0 <= i < modules.len() implies super::path_keys::has_path(
        artifact_paths(modules, jit),
        (#[trigger] modules[i]).0@,
    ) by {
        assert(module_paths(modules)[i] == modules[i].0@);
        assert(super::path_keys::has_path(first, modules[i].0@));
    }
    assert forall|n: int| 0 <= n < rows.len() implies super::path_keys::has_path(
        artifact_paths(modules, jit),
        (#[trigger] rows[n]).path,
    ) by {
        assert(row_paths(rows)[n] == rows[n].path);
    }
}

/// The key of the `k`-th path is that of all its spellings.
proof fn lemma_entry_key(
    modules: Seq<PathModule>,
    jit: Seq<PidJitData>,
    entries: Seq<(String, String)>,
    k: int,
    path: Seq<char>,
)
    requires
        inverts_keys(artifact_paths(modules, jit), entries),
        0 <= k < entries.len(),
        crate::path::components_of(entries[k].1@) == crate::path::components_of(path),
    ensures
        super::path_keys::key_of(artifact_paths(modules, jit), path) == entries[k].0@,
{
    super::path_keys::law_spellings_share_a_key(
        artifact_paths(modules, jit),
        entries[k].1@,
        path,
    );
}

proof fn lemma_sorted_holds<T: Ranked>(s: Seq<<T as DeepView>::V>, x: <T as DeepView>::V)
    ensures
        crate::sort::stable_sorted::<T>(s).contains(x) <==> s.contains(x),
{
    broadcast use vstd::seq_lib::group_to_multiset_ensures;

    crate::sort::law_sorted_form_is_a_stable_sort::<T>(s);
    let sorted = crate::sort::stable_sorted::<T>(s);
    assert(sorted.to_multiset().contains(x) <==> sorted.contains(x));
    assert(s.to_multiset().contains(x) <==> s.contains(x));
}

proof fn lemma_mappings_hold<T: ProcessMapping>(
    modules: Seq<PathModule>,
    paths: Seq<Seq<char>>,
    pid: i32,
    i: int,
)
    requires
        0 <= i < modules.len(),
        T::mapping_of(modules[i].1, super::path_keys::key_of(paths, modules[i].0@), pid) is Some,
    ensures
        mappings::<T>(modules, paths, pid).contains(
            T::mapping_of(modules[i].1, super::path_keys::key_of(paths, modules[i].0@), pid)->0,
        ),
    decreases modules.len(),
{
    let before = modules.drop_last();
    let x = T::mapping_of(modules[i].1, super::path_keys::key_of(paths, modules[i].0@), pid)->0;
    let rest = mappings::<T>(before, paths, pid);
    let all = mappings::<T>(modules, paths, pid);
    if i < modules.len() - 1 {
        assert(before[i] == modules[i]);
        lemma_mappings_hold::<T>(before, paths, pid, i);
        let k = choose|k: int| 0 <= k < rest.len() && rest[k] == x;
        assert(all[k] == x);
    } else {
        assert(all[rest.len() as int] == x);
    }
}

proof fn lemma_mappings_from<T: ProcessMapping>(
    modules: Seq<PathModule>,
    paths: Seq<Seq<char>>,
    pid: i32,
    x: <T as DeepView>::V,
)
    requires
        mappings::<T>(modules, paths, pid).contains(x),
    ensures
        exists|i: int|
            0 <= i < modules.len() && T::mapping_of(
                (#[trigger] modules[i]).1,
                super::path_keys::key_of(paths, modules[i].0@),
                pid,
            ) == Some(x),
    decreases modules.len(),
{
    let all = mappings::<T>(modules, paths, pid);
    let k = choose|k: int| 0 <= k < all.len() && all[k] == x;
    if modules.len() > 0 {
        let before = modules.drop_last();
        let rest = mappings::<T>(before, paths, pid);
        if k < rest.len() {
            assert(rest[k] == x);
            lemma_mappings_from::<T>(before, paths, pid, x);
            let i = choose|i: int|
                0 <= i < before.len() && T::mapping_of(
                    (#[trigger] before[i]).1,
                    super::path_keys::key_of(paths, before[i].0@),
                    pid,
                ) == Some(x);
            assert(modules[i] == before[i]);
        } else {
            let n = modules.len() - 1;
            assert(T::mapping_of(
                modules[n].1,
                super::path_keys::key_of(paths, modules[n].0@),
                pid,
            ) == Some(x));
        }
    }
}

/// The symbols of a module are written to the file of its key, and each process that loaded it at a
/// known load bias refers to the key with that bias.
pub proof fn law_symbols_of_modules_are_saved(
    folder: &str,
    modules: &Vec<PathModule>,
    infos: Vec<Option<ModuleDebugInfo>>,
    jit: &Vec<PidJitData>,
    ignore: &Vec<String>,
    r: SavedArtifacts,
    i: int,
    k: int,
    pid: i32,
    load_bias: u64,
)
    requires
        call_ensures(save_artifacts, (folder, modules, infos, jit, ignore), r),
        0 <= i < modules@.len(),
        modules@[i].1.module_symbols is Some,
        0 <= k < r.key_to_path@.len(),
        crate::path::components_of(r.key_to_path@[k].1@) == crate::path::components_of(
            modules@[i].0@,
        ),
    ensures
        r.symbol_files.deep_view().contains(
            (
                crate::path::joined_path(folder@, r.key_to_path@[k].0@ + ".symbols.map"@),
                super::module_symbols::symbol_lines(
                    modules@[i].1.module_symbols->0.deep_view(),
                ),
            ),
        ),
        modules@[i].1.process_loaded_modules@.contains_key(pid)
            && modules@[i].1.process_loaded_modules@[pid].symbols_load_bias == Some(load_bias) ==> {
            &&& r.symbol_pid_mappings_by_pid@.contains_key(pid)
            &&& r.symbol_pid_mappings_by_pid@[pid].deep_view().contains(
                MappedProcessModuleSymbolsView { perf_map_key: r.key_to_path@[k].0@, load_bias },
            )
        },
{
    let paths = artifact_paths(modules@, jit@);
    lemma_entry_key(modules@, jit@, r.key_to_path@, k, modules@[i].0@);
    lemma_symbol_files_hold(folder@, modules@, paths, i);
    reveal_strlit("symbols.map");
    reveal_strlit(".symbols.map");
    let key = r.key_to_path@[k].0@;
    assert(key + seq!['.'] + "symbols.map"@ =~= key + ".symbols.map"@);
    if modules@[i].1.process_loaded_modules@.contains_key(pid)
        && modules@[i].1.process_loaded_modules@[pid].symbols_load_bias == Some(load_bias) {
        let all = mappings::<MappedProcessModuleSymbols>(modules@, paths, pid);
        let x = MappedProcessModuleSymbolsView { perf_map_key: key, load_bias };
        lemma_mappings_hold::<MappedProcessModuleSymbols>(modules@, paths, pid, i);
        assert(all.contains(x));
        lemma_sorted_holds::<MappedProcessModuleSymbols>(all, x);
        assert(r.symbol_pid_mappings_by_pid@.contains_key(pid) <==> all.len() > 0);
    }
}

proof fn lemma_symbol_files_hold(
    folder: Seq<char>,
    modules: Seq<PathModule>,
    paths: Seq<Seq<char>>,
    i: int,
)
    requires
        0 <= i < modules.len(),
        modules[i].1.module_symbols is Some,
    ensures
        symbol_files(folder, modules, paths).contains(
            (
                crate::path::joined_path(
                    folder,
                    super::path_keys::key_of(paths, modules[i].0@) + seq!['.']
                        + SYMBOLS_MAP_SUFFIX@,
                ),
                super::module_symbols::symbol_lines(modules[i].1.module_symbols->0.deep_view()),
            ),
        ),
    decreases modules.len(),
{
    let before = modules.drop_last();
    let rest = symbol_files(folder, before, paths);
    let all = symbol_files(folder, modules, paths);
    let x = (
        crate::path::joined_path(
            folder,
            super::path_keys::key_of(paths, modules[i].0@) + seq!['.'] + SYMBOLS_MAP_SUFFIX@,
        ),
        super::module_symbols::symbol_lines(modules[i].1.module_symbols->0.deep_view()),
    );
    if i < modules.len() - 1 {
        assert(before[i] == modules[i]);
        lemma_symbol_files_hold(folder, before, paths, i);
        let k = choose|k: int| 0 <= k < rest.len() && rest[k] == x;
        assert(all[k] == x);
    } else {
        assert(all[rest.len() as int] == x);
    }
}

/// A process refers only to symbols of modules that it loaded, with the load bias that they have in
/// it, and in the order of the keys.
pub proof fn law_only_loaded_symbols_are_referred_to(
    folder: &str,
    modules: &Vec<PathModule>,
    infos: Vec<Option<ModuleDebugInfo>>,
    jit: &Vec<PidJitData>,
    ignore: &Vec<String>,
    r: SavedArtifacts,
    pid: i32,
    n: int,
)
    requires
        call_ensures(save_artifacts, (folder, modules, infos, jit, ignore), r),
        r.symbol_pid_mappings_by_pid@.contains_key(pid),
        0 <= n < r.symbol_pid_mappings_by_pid@[pid]@.len(),
    ensures
        exists|i: int|
            0 <= i < modules@.len() && (#[trigger] modules@[i]).1.module_symbols is Some
                && modules@[i].1.process_loaded_modules@.contains_key(pid)
                && modules@[i].1.process_loaded_modules@[pid].symbols_load_bias == Some(
                r.symbol_pid_mappings_by_pid@[pid]@[n].load_bias,
            ) && super::path_keys::key_of(artifact_paths(modules@, jit@), modules@[i].0@)
                == r.symbol_pid_mappings_by_pid@[pid]@[n].perf_map_key@,
        forall|m: int|
            0 <= m <= n ==> crate::text_map::text_le(
                (#[trigger] r.symbol_pid_mappings_by_pid@[pid]@[m]).perf_map_key@,
                r.symbol_pid_mappings_by_pid@[pid]@[n].perf_map_key@,
            ),
{
    let paths = artifact_paths(modules@, jit@);
    let list = r.symbol_pid_mappings_by_pid@[pid];
    let all = mappings::<MappedProcessModuleSymbols>(modules@, paths, pid);
    let x = list@[n].deep_view();
    let sorted = list.deep_view();
    assert(sorted[n] == x);
    assert(sorted.contains(x));
    lemma_sorted_holds::<MappedProcessModuleSymbols>(all, x);
    lemma_mappings_from::<MappedProcessModuleSymbols>(modules@, paths, pid, x);
    let i = choose|i: int|
        0 <= i < modules@.len() && MappedProcessModuleSymbols::mapping_of(
            (#[trigger] modules@[i]).1,
            super::path_keys::key_of(paths, modules@[i].0@),
            pid,
        ) == Some(x);
    assert(modules@[i].1.module_symbols is Some);
    crate::sort::law_sorted_form_is_a_stable_sort::<MappedProcessModuleSymbols>(all);
    assert forall|m: int| 0 <= m <= n implies crate::text_map::text_le(
        (#[trigger] list@[m]).perf_map_key@,
        list@[n].perf_map_key@,
    ) by {
        assert(sorted[m] == list@[m].deep_view());
        assert(MappedProcessModuleSymbols::ranked(sorted[m], sorted[n]));
    }
}

proof fn lemma_with_info_holds(
    modules: Seq<PathModule>,
    infos: Seq<Option<ModuleDebugInfo>>,
    paths: Seq<Seq<char>>,
    i: int,
)
    requires
        0 <= i < modules.len(),
        infos[i] is Some,
    ensures
        exists|k: int|
            0 <= k < with_info(modules, infos).len() && #[trigger] with_info(modules, infos)[k]
                == modules[i],
        keyed_infos(modules, infos, paths).contains(
            (super::path_keys::key_of(paths, modules[i].0@), infos[i]->0),
        ),
    decreases modules.len(),
{
    let before = modules.drop_last();
    let rest = with_info(before, infos);
    let all = with_info(modules, infos);
    let kept = keyed_infos(before, infos, paths);
    let x = (super::path_keys::key_of(paths, modules[i].0@), infos[i]->0);
    if i < modules.len() - 1 {
        assert(before[i] == modules[i]);
        lemma_with_info_holds(before, infos, paths, i);
        let k = choose|k: int| 0 <= k < rest.len() && #[trigger] rest[k] == before[i];
        assert(all[k] == rest[k]);
        let l = choose|l: int| 0 <= l < kept.len() && kept[l] == x;
        assert(keyed_infos(modules, infos, paths)[l] == x);
    } else {
        assert(all[rest.len() as int] == modules[i]);
        assert(keyed_infos(modules, infos, paths)[kept.len() as int] == x);
    }
}

/// The debug info of a module is kept under its key, and each process that loaded the module with
/// symbols at a known load bias refers to the key with that bias.
pub proof fn law_debug_info_of_modules_is_kept(
    folder: &str,
    modules: &Vec<PathModule>,
    infos: Vec<Option<ModuleDebugInfo>>,
    jit: &Vec<PidJitData>,
    ignore: &Vec<String>,
    r: SavedArtifacts,
    i: int,
    k: int,
    pid: i32,
    load_bias: u64,
)
    requires
        call_ensures(save_artifacts, (folder, modules, infos, jit, ignore), r),
        0 <= i < modules@.len(),
        infos@.len() == modules@.len(),
        infos@[i] is Some,
        0 <= k < r.key_to_path@.len(),
        crate::path::components_of(r.key_to_path@[k].1@) == crate::path::components_of(
            modules@[i].0@,
        ),
    ensures
        exists|n: int|
            0 <= n < r.debug_info@.len() && (#[trigger] r.debug_info@[n]).0@
                == r.key_to_path@[k].0@ && r.debug_info@[n].1 == infos@[i]->0,
        modules@[i].1.module_symbols is Some
            && modules@[i].1.process_loaded_modules@.contains_key(pid)
            && modules@[i].1.process_loaded_modules@[pid].symbols_load_bias == Some(load_bias) ==> {
            &&& r.mapped_process_debug_info_by_pid@.contains_key(pid)
            &&& r.mapped_process_debug_info_by_pid@[pid].deep_view().contains(
                MappedProcessDebugInfoView { debug_info_key: r.key_to_path@[k].0@, load_bias },
            )
        },
{
    let paths = artifact_paths(modules@, jit@);
    lemma_entry_key(modules@, jit@, r.key_to_path@, k, modules@[i].0@);
    lemma_with_info_holds(modules@, infos@, paths, i);
    let key = r.key_to_path@[k].0@;
    let kept = with_key_text(r.debug_info@);
    let n = choose|n: int| 0 <= n < kept.len() && kept[n] == (key, infos@[i]->0);
    assert(r.debug_info@[n].0@ == kept[n].0);
    if modules@[i].1.module_symbols is Some
        && modules@[i].1.process_loaded_modules@.contains_key(pid)
        && modules@[i].1.process_loaded_modules@[pid].symbols_load_bias == Some(load_bias) {
        let some = with_info(modules@, infos@);
        let j = choose|j: int| 0 <= j < some.len() && #[trigger] some[j] == modules@[i];
        let all = mappings::<MappedProcessDebugInfo>(some, paths, pid);
        let x = MappedProcessDebugInfoView { debug_info_key: key, load_bias };
        lemma_mappings_hold::<MappedProcessDebugInfo>(some, paths, pid, j);
        assert(all.contains(x));
        lemma_sorted_holds::<MappedProcessDebugInfo>(all, x);
        assert(r.mapped_process_debug_info_by_pid@.contains_key(pid) <==> all.len() > 0);
    }
}

proof fn lemma_module_unwind_files_hold(
    modules: Seq<PathModule>,
    paths: Seq<Seq<char>>,
    i: int,
)
    requires
        0 <= i < modules.len(),
        modules[i].1.unwind_data is Some,
    ensures
        module_unwind_files(modules, paths).contains(
            (super::path_keys::key_of(paths, modules[i].0@), UnwindSource::Module(i as usize)),
        ),
    decreases modules.len(),
{
    let before = modules.drop_last();
    let rest = module_unwind_files(before, paths);
    let all = module_unwind_files(modules, paths);
    let x = (super::path_keys::key_of(paths, modules[i].0@), UnwindSource::Module(i as usize));
    if i < modules.len() - 1 {
        assert(before[i] == modules[i]);
        lemma_module_unwind_files_hold(before, paths, i);
        let k = choose|k: int| 0 <= k < rest.len() && rest[k] == x;
        assert(all[k] == x);
    } else {
        assert(all[rest.len() as int] == x);
    }
}

/// The unwind data of a module is stored under its key, and each process in which it applies refers
/// to the key with how it does.
pub proof fn law_unwind_data_of_modules_is_saved(
    folder: &str,
    modules: &Vec<PathModule>,
    infos: Vec<Option<ModuleDebugInfo>>,
    jit: &Vec<PidJitData>,
    ignore: &Vec<String>,
    r: SavedArtifacts,
    i: int,
    k: int,
    pid: i32,
    inner: ProcessUnwindData,
)
    requires
        call_ensures(save_artifacts, (folder, modules, infos, jit, ignore), r),
        0 <= i < modules@.len(),
        modules@[i].1.unwind_data is Some,
        0 <= k < r.key_to_path@.len(),
        crate::path::components_of(r.key_to_path@[k].1@) == crate::path::components_of(
            modules@[i].0@,
        ),
    ensures
        exists|n: int|
            0 <= n < r.unwind_files@.len() && (#[trigger] r.unwind_files@[n]).0@
                == r.key_to_path@[k].0@ && r.unwind_files@[n].1 == UnwindSource::Module(i as usize),
        modules@[i].1.process_loaded_modules@.contains_key(pid)
            && modules@[i].1.process_loaded_modules@[pid].process_unwind_data == Some(inner) ==> {
            &&& r.mapped_process_unwind_data_by_pid@.contains_key(pid)
            &&& r.mapped_process_unwind_data_by_pid@[pid].deep_view().contains(
                MappedProcessUnwindDataView { unwind_data_key: r.key_to_path@[k].0@, inner },
            )
        },
{
    let paths = artifact_paths(modules@, jit@);
    let rows = jit_rows(jit@, jit@.len() as int);
    lemma_entry_key(modules@, jit@, r.key_to_path@, k, modules@[i].0@);
    lemma_module_unwind_files_hold(modules@, paths, i);
    let key = r.key_to_path@[k].0@;
    let own = module_unwind_files(modules@, paths);
    let files = with_key_text(r.unwind_files@);
    assert(files == own + jit_unwind_files(rows, paths));
    assert(files.len() == r.unwind_files@.len());
    let n = choose|n: int|
        0 <= n < own.len() && own[n] == (key, UnwindSource::Module(i as usize));
    assert(files[n] == own[n]);
    assert(r.unwind_files@[n].0@ == files[n].0);
    if modules@[i].1.process_loaded_modules@.contains_key(pid)
        && modules@[i].1.process_loaded_modules@[pid].process_unwind_data == Some(inner) {
        let first = mappings::<MappedProcessUnwindData>(modules@, paths, pid);
        let all = first + super::by_pid::of_pid(jit_mappings(rows, paths), pid);
        let x = MappedProcessUnwindDataView { unwind_data_key: key, inner };
        lemma_mappings_hold::<MappedProcessUnwindData>(modules@, paths, pid, i);
        let m = choose|m: int| 0 <= m < first.len() && first[m] == x;
        assert(all[m] == x);
        assert(all.contains(x));
        lemma_sorted_holds::<MappedProcessUnwindData>(all, x);
        assert(r.mapped_process_unwind_data_by_pid@.contains_key(pid) <==> all.len() > 0);
    }
}

/// The unwind data of each piece of compiled code is stored under the key of its path, and its
/// process refers to the key with how it applies.
pub proof fn law_unwind_data_of_compiled_code_is_saved(
    folder: &str,
    modules: &Vec<PathModule>,
    infos: Vec<Option<ModuleDebugInfo>>,
    jit: &Vec<PidJitData>,
    ignore: &Vec<String>,
    r: SavedArtifacts,
    a: int,
    b: int,
    k: int,
)
    requires
        call_ensures(save_artifacts, (folder, modules, infos, jit, ignore), r),
        0 <= a < jit@.len(),
        0 <= b < jit@[a].1@.len(),
        0 <= k < r.key_to_path@.len(),
        crate::path::components_of(r.key_to_path@[k].1@) == crate::path::components_of(
            jit@[a].1@[b].0.path@,
        ),
    ensures
        exists|n: int|
            0 <= n < r.unwind_files@.len() && (#[trigger] r.unwind_files@[n]).0@
                == r.key_to_path@[k].0@ && r.unwind_files@[n].1 == UnwindSource::Jit(
                a as usize,
                b as usize,
            ),
        r.mapped_process_unwind_data_by_pid@.contains_key(jit@[a].0),
        r.mapped_process_unwind_data_by_pid@[jit@[a].0].deep_view().contains(
            MappedProcessUnwindDataView {
                unwind_data_key: r.key_to_path@[k].0@,
                inner: jit@[a].1@[b].1,
            },
        ),
{
    let paths = artifact_paths(modules@, jit@);
    let rows = jit_rows(jit@, jit@.len() as int);
    let pid = jit@[a].0;
    lemma_entry_key(modules@, jit@, r.key_to_path@, k, jit@[a].1@[b].0.path@);
    lemma_jit_row(jit@, jit@.len() as int, a, b);
    let row = choose|n: int|
        0 <= n < rows.len() && #[trigger] rows[n] == rows_of_process(jit@, a)[b];
    let own = module_unwind_files(modules@, paths);
    let files = with_key_text(r.unwind_files@);
    assert(files == own + jit_unwind_files(rows, paths));
    assert(files.len() == r.unwind_files@.len());
    assert(files[own.len() + row] == jit_unwind_files(rows, paths)[row]);
    assert(r.unwind_files@[own.len() + row].0@ == files[own.len() + row].0);
    let entries = jit_mappings(rows, paths);
    let x = MappedProcessUnwindDataView {
        unwind_data_key: r.key_to_path@[k].0@,
        inner: jit@[a].1@[b].1,
    };
    assert(entries[row] == (pid, x));
    super::by_pid::lemma_of_pid_holds(entries, row);
    let first = mappings::<MappedProcessUnwindData>(modules@, paths, pid);
    let second = super::by_pid::of_pid(entries, pid);
    let all = first + second;
    let m = choose|m: int| 0 <= m < second.len() && second[m] == x;
    assert(all[first.len() + m] == x);
    assert(all.contains(x));
    lemma_sorted_holds::<MappedProcessUnwindData>(all, x);
    assert(r.mapped_process_unwind_data_by_pid@.contains_key(pid) <==> all.len() > 0);
}

/// A process refers only to unwind data that applies in it: of a module that it loaded, or of code
/// that it compiled.
pub proof fn law_only_unwind_data_that_applies_is_referred_to(
    folder: &str,
    modules: &Vec<PathModule>,
    infos: Vec<Option<ModuleDebugInfo>>,
    jit: &Vec<PidJitData>,
    ignore: &Vec<String>,
    r: SavedArtifacts,
    pid: i32,
    n: int,
)
    requires
        call_ensures(save_artifacts, (folder, modules, infos, jit, ignore), r),
        r.mapped_process_unwind_data_by_pid@.contains_key(pid),
        0 <= n < r.mapped_process_unwind_data_by_pid@[pid]@.len(),
    ensures
        (exists|i: int|
            0 <= i < modules@.len() && (#[trigger] modules@[i]).1.unwind_data is Some
                && modules@[i].1.process_loaded_modules@.contains_key(pid)
                && modules@[i].1.process_loaded_modules@[pid].process_unwind_data == Some(
                r.mapped_process_unwind_data_by_pid@[pid]@[n].inner,
            )) || (exists|a: int, b: int|
            0 <= a < jit@.len() && 0 <= b < jit@[a].1@.len() && jit@[a].0 == pid && (
            #[trigger] jit@[a].1@[b]).1 == r.mapped_process_unwind_data_by_pid@[pid]@[n].inner),
{
    let paths = artifact_paths(modules@, jit@);
    let rows = jit_rows(jit@, jit@.len() as int);
    let list = r.mapped_process_unwind_data_by_pid@[pid];
    let entries = jit_mappings(rows, paths);
    let first = mappings::<MappedProcessUnwindData>(modules@, paths, pid);
    let second = super::by_pid::of_pid(entries, pid);
    let all = first + second;
    let x = list@[n].deep_view();
    assert(list.deep_view()[n] == x);
    assert(list.deep_view().contains(x));
    lemma_sorted_holds::<MappedProcessUnwindData>(all, x);
    let m = choose|m: int| 0 <= m < all.len() && all[m] == x;
    if m < first.len() {
        assert(first[m] == x);
        assert(first.contains(x));
        lemma_mappings_from::<MappedProcessUnwindData>(modules@, paths, pid, x);
        let i = choose|i: int|
            0 <= i < modules@.len() && MappedProcessUnwindData::mapping_of(
                (#[trigger] modules@[i]).1,
                super::path_keys::key_of(paths, modules@[i].0@),
                pid,
            ) == Some(x);
        assert(modules@[i].1.unwind_data is Some);
    } else {
        assert(second[m - first.len()] == x);
        super::by_pid::lemma_of_pid_from(entries, pid, m - first.len());
        let e = choose|e: int| 0 <= e < entries.len() && #[trigger] entries[e] == (pid, x);
        lemma_jit_row_from(jit@, jit@.len() as int, e);
    }
}

proof fn lemma_jit_row_from(jit: Seq<PidJitData>, n: int, e: int)
    requires
        0 <= n <= jit.len(),
        0 <= e < jit_rows(jit, n).len(),
    ensures
        exists|a: int, b: int|
            0 <= a < n && 0 <= b < jit[a].1@.len() && jit[a].0 == jit_rows(jit, n)[e].pid && (
            #[trigger] jit[a].1@[b]).1 == jit_rows(jit, n)[e].inner,
    decreases n,
{
    let rest = jit_rows(jit, n - 1);
    let all = jit_rows(jit, n);
    if e < rest.len() {
        assert(all[e] == rest[e]);
        lemma_jit_row_from(jit, n - 1, e);
    } else {
        let b = e - rest.len();
        assert(all[e] == rows_of_process(jit, n - 1)[b]);
        assert(jit[n - 1].1@[b].1 == all[e].inner);
    }
}

/// Whether the module is one that is listed, or the file of a Python.
pub open spec fn is_left_out(path: Seq<char>, ignore_paths: Seq<Seq<char>>) -> bool {
    ||| exists|n: int| 0 <= n < ignore_paths.len() && #[trigger] ignore_paths[n] == path
    ||| crate::path::file_name_of(path) matches Some(name) && name.len() >= 6 && name.take(6)
        == seq!['p', 'y', 't', 'h', 'o', 'n']
}

proof fn lemma_left_out(path: Seq<char>, ignore_paths: Seq<Seq<char>>)
    ensures
        is_ignored(path, ignore_paths) <==> is_left_out(path, ignore_paths),
{
    reveal_strlit("python");
    let python = seq!['p', 'y', 't', 'h', 'o', 'n'];
    assert("python"@ =~= python);
    if let Some(name) = crate::path::file_name_of(path) {
        if name.len() >= 6 {
            assert(name.subrange(0, 6) =~= name.take(6));
        }
    }
}

proof fn lemma_ignored_hold(
    modules: Seq<PathModule>,
    ignore_paths: Seq<Seq<char>>,
    pid: i32,
    i: int,
)
    requires
        0 <= i < modules.len(),
        is_ignored(modules[i].0@, ignore_paths),
        runtime_range(modules[i].1, pid) is Some,
    ensures
        exists|k: int|
            0 <= k < ignored_ranges(modules, ignore_paths, pid).len() && (
            #[trigger] ignored_ranges(modules, ignore_paths, pid)[k]).0 == modules[i].0@ && Some(
                (
                    ignored_ranges(modules, ignore_paths, pid)[k].1,
                    ignored_ranges(modules, ignore_paths, pid)[k].2,
                ),
            ) == runtime_range(modules[i].1, pid),
    decreases modules.len(),
{
    let before = modules.drop_last();
    let rest = ignored_ranges(before, ignore_paths, pid);
    let all = ignored_ranges(modules, ignore_paths, pid);
    if i < modules.len() - 1 {
        assert(before[i] == modules[i]);
        lemma_ignored_hold(before, ignore_paths, pid, i);
        let k = choose|k: int|
            0 <= k < rest.len() && (#[trigger] rest[k]).0 == modules[i].0@ && Some(
                (rest[k].1, rest[k].2),
            ) == runtime_range(modules[i].1, pid);
        assert(all[k] == rest[k]);
    } else {
        assert(all[rest.len() as int].0 == modules[i].0@);
    }
}

proof fn lemma_ignored_from(
    modules: Seq<PathModule>,
    ignore_paths: Seq<Seq<char>>,
    pid: i32,
    k: int,
)
    requires
        0 <= k < ignored_ranges(modules, ignore_paths, pid).len(),
    ensures
        exists|i: int|
            0 <= i < modules.len() && (#[trigger] modules[i]).0@ == ignored_ranges(
                modules,
                ignore_paths,
                pid,
            )[k].0 && is_ignored(modules[i].0@, ignore_paths)
                && modules[i].1.process_loaded_modules@.contains_key(pid),
    decreases modules.len(),
{
    let before = modules.drop_last();
    let rest = ignored_ranges(before, ignore_paths, pid);
    let all = ignored_ranges(modules, ignore_paths, pid);
    if k < rest.len() {
        assert(all[k] == rest[k]);
        lemma_ignored_from(before, ignore_paths, pid, k);
        let i = choose|i: int|
            0 <= i < before.len() && (#[trigger] before[i]).0@ == rest[k].0 && is_ignored(
                before[i].0@,
                ignore_paths,
            ) && before[i].1.process_loaded_modules@.contains_key(pid);
        assert(modules[i] == before[i]);
    } else {
        assert(modules[modules.len() - 1].0@ == all[k].0);
    }
}

/// A module that is listed, or a Python, is told to each process that loaded it at a known load
/// bias, with the addresses that its symbols take there.
pub proof fn law_ignored_modules_are_told(
    modules: &Vec<PathModule>,
    ignore: &Vec<String>,
    r: HashMap<i32, Vec<(String, u64, u64)>>,
    i: int,
    pid: i32,
    symbols: ModuleSymbols,
    bounds: (u64, u64),
    load_bias: u64,
)
    requires
        call_ensures(collect_ignored_modules, (modules, ignore), r),
        0 <= i < modules@.len(),
        is_left_out(modules@[i].0@, ignore.deep_view()),
        modules@[i].1.module_symbols == Some(symbols),
        call_ensures(ModuleSymbols::addr_bounds, (&symbols,), Some(bounds)),
        modules@[i].1.process_loaded_modules@.contains_key(pid),
        modules@[i].1.process_loaded_modules@[pid].symbols_load_bias == Some(load_bias),
        bounds.1 + load_bias <= u64::MAX,
    ensures
        r@.contains_key(pid),
        exists|k: int|
            0 <= k < r@[pid]@.len() && (#[trigger] r@[pid]@[k]).0@ == modules@[i].0@ && r@[pid]@[k].1
                == bounds.0 + load_bias && r@[pid]@[k].2 == bounds.1 + load_bias,
{
    let paths = ignore.deep_view();
    lemma_left_out(modules@[i].0@, paths);
    lemma_bounds(symbols.deep_view(), bounds);
    lemma_ignored_hold(modules@, paths, pid, i);
    let all = ignored_ranges(modules@, paths, pid);
    let k = choose|k: int|
        0 <= k < all.len() && (#[trigger] all[k]).0 == modules@[i].0@ && Some((all[k].1, all[k].2))
            == runtime_range(modules@[i].1, pid);
    assert(r@.contains_key(pid) <==> all.len() > 0);
    assert(r@[pid].deep_view()[k] == r@[pid]@[k].deep_view());
}

/// Only modules that are listed, or a Python, are told to a process, and only those it loaded.
pub proof fn law_other_modules_are_not_ignored(
    modules: &Vec<PathModule>,
    ignore: &Vec<String>,
    r: HashMap<i32, Vec<(String, u64, u64)>>,
    pid: i32,
    k: int,
)
    requires
        call_ensures(collect_ignored_modules, (modules, ignore), r),
        r@.contains_key(pid),
        0 <= k < r@[pid]@.len(),
    ensures
        is_left_out(r@[pid]@[k].0@, ignore.deep_view()),
        exists|i: int|
            0 <= i < modules@.len() && (#[trigger] modules@[i]).0@ == r@[pid]@[k].0@
                && modules@[i].1.process_loaded_modules@.contains_key(pid),
{
    assert(r@[pid].deep_view()[k] == r@[pid]@[k].deep_view());
    lemma_ignored_from(modules@, ignore.deep_view(), pid, k);
    lemma_left_out(r@[pid]@[k].0@, ignore.deep_view());
}

/// What is stored of the modules holds the ignored ones as they are collected.
pub proof fn law_ignored_modules_are_stored(
    folder: &str,
    modules: &Vec<PathModule>,
    infos: Vec<Option<ModuleDebugInfo>>,
    jit: &Vec<PidJitData>,
    ignore: &Vec<String>,
    r: SavedArtifacts,
    collected: HashMap<i32, Vec<(String, u64, u64)>>,
    pid: i32,
)
    requires
        call_ensures(save_artifacts, (folder, modules, infos, jit, ignore), r),
        call_ensures(collect_ignored_modules, (modules, ignore), collected),
    ensures
        r.ignored_modules_by_pid@.contains_key(pid) <==> collected@.contains_key(pid),
        collected@.contains_key(pid) ==> r.ignored_modules_by_pid@[pid].deep_view()
            == collected@[pid].deep_view(),
{
    assert(collected@.contains_key(pid) <==> ignored_ranges(
        modules@,
        ignore.deep_view(),
        pid,
    ).len() > 0);
    assert(r.ignored_modules_by_pid@.contains_key(pid) <==> ignored_ranges(
        modules@,
        ignore.deep_view(),
        pid,
    ).len() > 0);
}

/// A process refers only to debug info of modules that it loaded with symbols, with the load bias
/// that they have in it.
pub proof fn law_only_loaded_debug_info_is_referred_to(
    folder: &str,
    modules: &Vec<PathModule>,
    infos: Vec<Option<ModuleDebugInfo>>,
    jit: &Vec<PidJitData>,
    ignore: &Vec<String>,
    r: SavedArtifacts,
    pid: i32,
    n: int,
)
    requires
        call_ensures(save_artifacts, (folder, modules, infos, jit, ignore), r),
        r.mapped_process_debug_info_by_pid@.contains_key(pid),
        0 <= n < r.mapped_process_debug_info_by_pid@[pid]@.len(),
    ensures
        exists|i: int|
            0 <= i < modules@.len() && (#[trigger] modules@[i]).1.module_symbols is Some
                && infos@[i] is Some && modules@[i].1.process_loaded_modules@.contains_key(pid)
                && modules@[i].1.process_loaded_modules@[pid].symbols_load_bias == Some(
                r.mapped_process_debug_info_by_pid@[pid]@[n].load_bias,
            ) && super::path_keys::key_of(artifact_paths(modules@, jit@), modules@[i].0@)
                == r.mapped_process_debug_info_by_pid@[pid]@[n].debug_info_key@,
{
    let paths = artifact_paths(modules@, jit@);
    let list = r.mapped_process_debug_info_by_pid@[pid];
    let some = with_info(modules@, infos@);
    let all = mappings::<MappedProcessDebugInfo>(some, paths, pid);
    let x = list@[n].deep_view();
    assert(list.deep_view()[n] == x);
    assert(list.deep_view().contains(x));
    lemma_sorted_holds::<MappedProcessDebugInfo>(all, x);
    lemma_mappings_from::<MappedProcessDebugInfo>(some, paths, pid, x);
    let k = choose|k: int|
        0 <= k < some.len() && MappedProcessDebugInfo::mapping_of(
            (#[trigger] some[k]).1,
            super::path_keys::key_of(paths, some[k].0@),
            pid,
        ) == Some(x);
    lemma_with_info_from(modules@, infos@, k);
    let i = choose|i: int|
        0 <= i < modules@.len() && #[trigger] modules@[i] == some[k] && infos@[i] is Some;
    assert(modules@[i].1.module_symbols is Some);
}

proof fn lemma_with_info_from(
    modules: Seq<PathModule>,
    infos: Seq<Option<ModuleDebugInfo>>,
    k: int,
)
    requires
        0 <= k < with_info(modules, infos).len(),
    ensures
        exists|i: int|
            0 <= i < modules.len() && #[trigger] modules[i] == with_info(modules, infos)[k]
                && infos[i] is Some,
    decreases modules.len(),
{
    let before = modules.drop_last();
    let rest = with_info(before, infos);
    if k < rest.len() {
        lemma_with_info_from(before, infos, k);
        let i = choose|i: int|
            0 <= i < before.len() && #[trigger] before[i] == rest[k] && infos[i] is Some;
        assert(modules[i] == before[i]);
    } else {
        assert(modules[modules.len() - 1] == with_info(modules, infos)[k]);
    }
}

} // verus!
