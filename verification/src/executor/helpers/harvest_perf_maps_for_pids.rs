//! The maps from addresses to names that runtimes write for profilers.
use vstd::prelude::*;

use crate::numeral::i64_to_decimal;
use crate::path::join_path;

verus! {

/// The name of the map of a process.
pub open spec fn perf_map_name(pid: i32) -> Seq<char> {
    "perf-"@ + crate::numeral::signed_decimal(pid as int) + ".map"@
}

fn perf_map_file_name(pid: i32) -> (r: String)
    ensures
        r@ == perf_map_name(pid),
{
    let mut name = "perf-".to_owned();
    name.append(i64_to_decimal(pid as i64).as_str());
    name.append(".map");
    name
}

/// Where a process writes its map.
pub fn perf_map_source(pid: i32) -> (r: String)
    ensures
        r@ == crate::path::joined_path("/tmp"@, perf_map_name(pid)),
{
    join_path("/tmp", perf_map_file_name(pid).as_str())
}

/// Where each map that exists is copied from and to.
pub open spec fn copies(profile_folder: Seq<char>, pids: Seq<i32>, exists: Seq<bool>) -> Seq<
    (Seq<char>, Seq<char>),
>
    decreases pids.len(),
{
    if pids.len() == 0 {
        seq![]
    } else {
        let rest = copies(profile_folder, pids.drop_last(), exists);
        let name = perf_map_name(pids.last());
        if exists[pids.len() - 1] {
            rest.push(
                (
                    crate::path::joined_path("/tmp"@, name),
                    crate::path::joined_path(profile_folder, name),
                ),
            )
        } else {
            rest
        }
    }
}

/// Where the maps of some processes are copied from and to. `exists` tells of each whether it has
/// one.
pub fn harvest_perf_maps_for_pids(
    profile_folder: &str,
    pids: &Vec<i32>,
    exists: &Vec<bool>,
) -> (r: Vec<(String, String)>)
    requires
        pids@.len() == exists@.len(),
    ensures
        r.deep_view() == copies(profile_folder@, pids@, exists@),
{
    let mut out: Vec<(String, String)> = Vec::new();
    let mut i: usize = 0;
    assert(pids@.take(0) =~= seq![]);
    while i < pids.len()
        invariant
            pids@.len() == exists@.len(),
            i <= pids@.len(),
            out.deep_view() == copies(profile_folder@, pids@.take(i as int), exists@),
        decreases pids.len() - i,
    {
        let ghost before = out;
        assert(pids@.take(i + 1).drop_last() =~= pids@.take(i as int));
        if exists[i] {
            let name = perf_map_file_name(pids[i]);
            out.push((perf_map_source(pids[i]), join_path(profile_folder, name.as_str())));
            proof {
                crate::list::lemma_deep_push(before, out@.last(), out);
            }
        }
        i = i + 1;
    }
    assert(pids@.take(pids@.len() as int) =~= pids@);
    out
}

/// The map of each process that has one is copied from the directory for temporary files to the
/// profile folder, under the same name, which names the process. No other file is copied.
pub proof fn law_every_map_is_copied(
    profile_folder: &str,
    pids: &Vec<i32>,
    exists: &Vec<bool>,
    r: Vec<(String, String)>,
    i: int,
    k: int,
)
    requires
        call_ensures(harvest_perf_maps_for_pids, (profile_folder, pids, exists), r),
        pids@.len() == exists@.len(),
        0 <= i < pids@.len(),
    ensures
        ({
            let name = "perf-"@ + crate::numeral::signed_decimal(pids@[i] as int) + ".map"@;
            exists@[i] ==> r.deep_view().contains(
                ("/tmp/"@ + name, crate::path::joined_path(profile_folder@, name)),
            )
        }),
        (forall|j: int| 0 <= j < pids@.len() ==> !exists@[j]) ==> r@.len() == 0,
        0 <= k < r@.len() ==> exists|j: int|
            0 <= j < pids@.len() && exists@[j] && r.deep_view()[k].1 == crate::path::joined_path(
                profile_folder@,
                "perf-"@ + crate::numeral::signed_decimal(#[trigger] pids@[j] as int) + ".map"@,
            ),
{
    let name = perf_map_name(pids@[i]);
    reveal_strlit("/tmp/");
    reveal_strlit("/tmp");
    reveal_strlit("perf-");
    assert(name[0] == 'p');
    assert(crate::path::joined_path("/tmp"@, name) =~= "/tmp/"@ + name);
    lemma_copies(profile_folder@, pids@, exists@, i, k);
    assert(r.deep_view().len() == r@.len());
}

proof fn lemma_copies(profile_folder: Seq<char>, pids: Seq<i32>, exists: Seq<bool>, i: int, k: int)
    requires
        pids.len() <= exists.len(),
    ensures
        0 <= i < pids.len() && exists[i] ==> copies(profile_folder, pids, exists).contains(
            (
                crate::path::joined_path("/tmp"@, perf_map_name(pids[i])),
                crate::path::joined_path(profile_folder, perf_map_name(pids[i])),
            ),
        ),
        (forall|j: int| 0 <= j < pids.len() ==> !exists[j]) ==> copies(profile_folder, pids, exists).len()
            == 0,
        0 <= k < copies(profile_folder, pids, exists).len() ==> exists|j: int|
            0 <= j < pids.len() && exists[j] && copies(profile_folder, pids, exists)[k].1
                == crate::path::joined_path(profile_folder, perf_map_name(#[trigger] pids[j])),
    decreases pids.len(),
{
    if pids.len() > 0 {
        let rest = pids.drop_last();
        let before = copies(profile_folder, rest, exists);
        let after = copies(profile_folder, pids, exists);
        lemma_copies(profile_folder, rest, exists, i, k);
        if 0 <= i < pids.len() && exists[i] {
            let pair = (
                crate::path::joined_path("/tmp"@, perf_map_name(pids[i])),
                crate::path::joined_path(profile_folder, perf_map_name(pids[i])),
            );
            if i < rest.len() {
                assert(rest[i] == pids[i]);
                assert(after[before.index_of(pair)] == pair);
            } else {
                assert(after[after.len() - 1] == pair);
            }
        }
        if forall|j: int| 0 <= j < pids.len() ==> !exists[j] {
            assert(!exists[pids.len() - 1]);
        }
        if 0 <= k < after.len() {
            if k < before.len() {
                assert(after[k] == before[k]);
                let j = choose|j: int|
                    0 <= j < rest.len() && exists[j] && before[k].1 == crate::path::joined_path(
                        profile_folder,
                        perf_map_name(#[trigger] rest[j]),
                    );
                assert(pids[j] == rest[j]);
            } else {
                assert(pids[pids.len() - 1] == pids.last());
            }
        }
    }
}

/// Different processes have different maps.
pub proof fn law_maps_do_not_collide(a: i32, b: i32)
    requires
        perf_map_name(a) == perf_map_name(b),
    ensures
        a == b,
{
    let x = crate::numeral::signed_decimal(a as int);
    let y = crate::numeral::signed_decimal(b as int);
    let n = "perf-"@.len() as int;
    let p = perf_map_name(a);
    let q = perf_map_name(b);
    assert(p.subrange(n, p.len() - ".map"@.len()) =~= x);
    assert(q.subrange(n, q.len() - ".map"@.len()) =~= y);
    crate::numeral::law_signed_decimal_reads_back(a as int);
    crate::numeral::law_signed_decimal_reads_back(b as int);
}

} // verus!
