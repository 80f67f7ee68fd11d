//! The processes that a profile folder holds output of.
use vstd::prelude::*;

use crate::executor::helpers::harvest_perf_maps_for_pids::harvest_perf_maps_for_pids;
use crate::numeral::parse_i32;
use crate::path::stem_and_extension;
use crate::text::str_eq;

verus! {

/// The process that a file is the output of: the name of the file, where it ends in `.out`, as those
/// of Callgrind, or in `.tgtrace`, as those of Tracegrind.
pub open spec fn pid_of_file(path: Seq<char>) -> Option<int> {
    match crate::path::stem_and_extension_of(path) {
        Some((stem, Some(extension))) => if extension == "out"@ || extension == "tgtrace"@ {
            crate::numeral::parsed(stem, i32::MIN as int, i32::MAX as int)
        } else {
            None
        },
        _ => None,
    }
}

/// The process that a file is the output of.
pub fn extract_pid_from_profile_file(path: &str) -> (r: Option<i32>)
    ensures
        match r {
            Some(pid) => pid_of_file(path@) == Some(pid as int),
            None => pid_of_file(path@) is None,
        },
{
    let Some((stem, extension)) = stem_and_extension(path) else {
        return None;
    };
    let Some(extension) = extension else {
        return None;
    };
    if str_eq(extension.as_str(), "out") || str_eq(extension.as_str(), "tgtrace") {
        parse_i32(stem.as_str())
    } else {
        None
    }
}

/// The processes that the files of a profile folder are the output of, each once.
pub fn profile_pids(paths: &Vec<String>) -> (r: Vec<i32>)
    ensures
        r@.no_duplicates(),
        forall|pid: i32| #[trigger]
            r@.contains(pid) <==> exists|i: int|
                0 <= i < paths@.len() && pid_of_file((#[trigger] paths@[i])@) == Some(pid as int),
{
    let mut out: Vec<i32> = Vec::new();
    let mut i: usize = 0;
    while i < paths.len()
        invariant
            i <= paths@.len(),
            out@.no_duplicates(),
            forall|pid: i32| #[trigger]
                out@.contains(pid) <==> exists|k: int|
                    0 <= k < i && pid_of_file((#[trigger] paths@[k])@) == Some(pid as int),
        decreases paths.len() - i,
    {
        let ghost before = out@;
        if let Some(pid) = extract_pid_from_profile_file(paths[i].as_str()) {
            let mut seen: bool = false;
            let mut j: usize = 0;
            while j < out.len()
                invariant
                    j <= out@.len(),
                    seen <==> exists|k: int| 0 <= k < j && #[trigger] out@[k] == pid,
                decreases out.len() - j,
            {
                if out[j] == pid {
                    seen = true;
                }
                j = j + 1;
            }
            assert(seen <==> before.contains(pid));
            if !seen {
                out.push(pid);
                assert forall|a: int, b: int| 0 <= a < out@.len() && 0 <= b < out@.len() && a != b implies out@[a] != out@[b] by {
                    if a < before.len() && b < before.len() {
                        assert(before[a] != before[b]);
                    } else if a < before.len() {
                        assert(before.contains(before[a]));
                    } else {
                        assert(before.contains(before[b]));
                    }
                }
            }
            assert forall|p: i32| #[trigger]
                out@.contains(p) <==> exists|k: int|
                    0 <= k < i + 1 && pid_of_file((#[trigger] paths@[k])@) == Some(p as int) by {
                if !seen {
                    assert(out@[before.len() as int] == pid);
                }
                if before.contains(p) {
                    let k = choose|k: int|
                        0 <= k < i && pid_of_file((#[trigger] paths@[k])@) == Some(p as int);
                    assert(0 <= k < i + 1);
                    let l = choose|l: int| 0 <= l < before.len() && before[l] == p;
                    assert(out@[l] == p);
                }
                if p == pid {
                    assert(pid_of_file(paths@[i as int]@) == Some(p as int));
                }
                if out@.contains(p) && p != pid {
                    let l = choose|l: int| 0 <= l < out@.len() && out@[l] == p;
                    assert(before[l] == p);
                }
            }
        }
        i = i + 1;
    }
    out
}

/// Where the maps of the processes of a profile folder that holds `paths` are copied from and to,
/// given of each of [`profile_pids`] whether it has one.
pub fn harvest_perf_maps(profile_folder: &str, pids: &Vec<i32>, exists: &Vec<bool>) -> (r: Vec<
    (String, String),
>)
    requires
        pids@.len() == exists@.len(),
    ensures
        r.deep_view() == crate::executor::helpers::harvest_perf_maps_for_pids::copies(
            profile_folder@,
            pids@,
            exists@,
        ),
{
    harvest_perf_maps_for_pids(profile_folder, pids, exists)
}

/// The output of a process is a file that is named after it and ends in `.out` or in `.tgtrace`,
/// wherever it is; a file that ends otherwise, or whose name is no number, is none.
pub proof fn law_output_is_named_after_its_process(
    path: &str,
    r: Option<i32>,
    dir: Seq<char>,
    pid: i32,
    stem: Seq<char>,
    extension: Seq<char>,
)
    requires
        call_ensures(extract_pid_from_profile_file, (path,), r),
        crate::path::is_plain_name(stem),
        forall|i: int|
            0 <= i < extension.len() ==> #[trigger] extension[i] != '.' && extension[i] != '/',
        path@ == crate::path::joined_path(dir, stem + seq!['.'] + extension),
    ensures
        (extension == "out"@ || extension == "tgtrace"@) && stem == crate::numeral::signed_decimal(
            pid as int,
        ) ==> r == Some(pid),
        extension != "out"@ && extension != "tgtrace"@ ==> r is None,
        crate::numeral::numeral_value(stem, true) is None ==> r is None,
{
    let name = stem + seq!['.'] + extension;
    assert forall|i: int| 0 <= i < name.len() implies #[trigger] name[i] != '/' by {
        if i < stem.len() {
            assert(name[i] == stem[i]);
        } else if i > stem.len() {
            assert(name[i] == extension[i - stem.len() - 1]);
        }
    }
    if name == seq!['.', '.'] {
        assert(name.len() == 2);
        assert(stem.len() == 1);
        assert(stem[0] == name[0]);
        assert(stem =~= seq!['.']);
    }
    if name == seq!['.'] {
        assert(name.len() == 1);
    }
    crate::path::law_file_has_its_name(dir, name);
    crate::path::law_extension_follows_the_last_dot(stem, extension);
    crate::numeral::law_numbers_are_read_within_their_range(
        pid as int,
        i32::MIN as int,
        i32::MAX as int,
    );
}

} // verus!
