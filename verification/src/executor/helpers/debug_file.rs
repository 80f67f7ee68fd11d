//! Where separate debug files are looked for.
//!
//! The order is that of GDB: the path built from the build ID comes first, as it cannot be that of
//! another file, and the files that `.gnu_debuglink` may mean come next, which must have the right
//! checksum.
use vstd::prelude::*;

use crate::bytes::from_utf8;
use crate::elf::{build_id, gnu_debuglink};
use crate::numeral::hex_of_bytes;
use crate::path::{join_path, parent, strip_root};

verus! {

/// A file that may be the debug file.
#[derive(Debug)]
pub struct Candidate {
    pub path: String,
    /// The checksum that it must have. Where it is missing, it is enough that the file exists.
    pub crc: Option<u32>,
}

impl DeepView for Candidate {
    type V = (Seq<char>, Option<u32>);

    open spec fn deep_view(&self) -> (Seq<char>, Option<u32>) {
        (self.path@, self.crc)
    }
}

/// What is found at the path of a candidate.
#[derive(Debug)]
pub struct FileState {
    pub exists: bool,
    /// What the file holds, if it can be read.
    pub content: Option<Vec<u8>>,
}

/// Where the debug file of the build `id` is kept: the first byte names a directory, and the
/// others the file.
pub open spec fn build_id_path(id: Seq<u8>, debug_dir: Seq<char>) -> Seq<char> {
    let base = crate::path::joined_path(debug_dir, ".build-id"@);
    let dir = crate::path::joined_path(base, crate::numeral::bytes_hex(id.take(1)));
    crate::path::joined_path(dir, crate::numeral::bytes_hex(id.skip(1)) + ".debug"@)
}

/// The candidate for a build ID.
pub open spec fn build_id_candidates(id: Option<Seq<u8>>, debug_dir: Seq<char>) -> Seq<
    (Seq<char>, Option<u32>),
> {
    match id {
        Some(id) => if id.len() > 0 {
            seq![(build_id_path(id, debug_dir), None)]
        } else {
            seq![]
        },
        None => seq![],
    }
}

/// The candidates for a debug link: beside the binary, in its `.debug` directory, and in the
/// directory of the binary as seen from `debug_dir`.
pub open spec fn debuglink_candidates(
    link: Option<(Seq<u8>, u32)>,
    binary_path: Seq<char>,
    debug_dir: Seq<char>,
) -> Seq<(Seq<char>, Option<u32>)> {
    match (link, crate::path::parent_of(binary_path)) {
        (Some((bytes, crc)), Some(dir)) => if vstd::utf8::valid_utf8(bytes) {
            let name = vstd::utf8::decode_utf8(bytes);
            let under_debug_dir = crate::path::joined_path(
                debug_dir,
                crate::path::from_root(dir),
            );
            seq![
                (crate::path::joined_path(dir, name), Some(crc)),
                (
                    crate::path::joined_path(crate::path::joined_path(dir, ".debug"@), name),
                    Some(crc),
                ),
                (crate::path::joined_path(under_debug_dir, name), Some(crc)),
            ]
        } else {
            seq![]
        },
        _ => seq![],
    }
}

/// The candidates for a build ID under some directories.
pub open spec fn all_build_id_candidates(id: Option<Seq<u8>>, debug_dirs: Seq<Seq<char>>) -> Seq<
    (Seq<char>, Option<u32>),
>
    decreases debug_dirs.len(),
{
    if debug_dirs.len() == 0 {
        seq![]
    } else {
        all_build_id_candidates(id, debug_dirs.drop_last()) + build_id_candidates(
            id,
            debug_dirs.last(),
        )
    }
}

/// The candidates for a debug link under some directories.
pub open spec fn all_debuglink_candidates(
    link: Option<(Seq<u8>, u32)>,
    binary_path: Seq<char>,
    debug_dirs: Seq<Seq<char>>,
) -> Seq<(Seq<char>, Option<u32>)>
    decreases debug_dirs.len(),
{
    if debug_dirs.len() == 0 {
        seq![]
    } else {
        all_debuglink_candidates(link, binary_path, debug_dirs.drop_last()) + debuglink_candidates(
            link,
            binary_path,
            debug_dirs.last(),
        )
    }
}

/// The candidates under some directories, in the order in which they are tried: those for the build
/// ID come first, whatever directory they are in.
pub open spec fn candidates(
    id: Option<Seq<u8>>,
    link: Option<(Seq<u8>, u32)>,
    binary_path: Seq<char>,
    debug_dirs: Seq<Seq<char>>,
) -> Seq<(Seq<char>, Option<u32>)> {
    all_build_id_candidates(id, debug_dirs) + all_debuglink_candidates(
        link,
        binary_path,
        debug_dirs,
    )
}

/// The directories that debug files are installed in.
pub open spec fn debug_roots() -> Seq<Seq<char>> {
    seq!["/usr/lib/debug"@, "/run/current-system/sw/lib/debug"@]
}

/// The CRC-32 checksum of some bytes.
pub uninterp spec fn crc32(bytes: Seq<u8>) -> u32;

/// `crc32fast::hash`: the CRC-32 checksum.
#[verifier::external_body]
fn crc32_of(bytes: &[u8]) -> (r: u32)
    ensures
        r == crc32(bytes@),
{
    crc32fast::hash(bytes)
}

/// The directories that debug files are installed in.
pub fn debug_directories() -> (r: Vec<String>)
    ensures
        r.deep_view() == debug_roots(),
{
    let r = vec!["/usr/lib/debug".to_owned(), "/run/current-system/sw/lib/debug".to_owned()];
    assert(r.deep_view() =~= debug_roots());
    r
}

fn find_debug_file_by_build_id(id: &Option<Vec<u8>>, debug_dir: &str) -> (r: Vec<Candidate>)
    ensures
        r.deep_view() == build_id_candidates(id.deep_view(), debug_dir@),
{
    let mut out: Vec<Candidate> = Vec::new();
    if let Some(id) = id {
        assert(id.deep_view() =~= id@);
        if id.len() > 0 {
            let dir = hex_of_bytes(id.as_slice(), 0, 1);
            let mut name = hex_of_bytes(id.as_slice(), 1, id.len());
            name.append(".debug");
            assert(id@.subrange(0, 1) =~= id@.take(1));
            assert(id@.subrange(1, id@.len() as int) =~= id@.skip(1));
            let base = join_path(debug_dir, ".build-id");
            let path = join_path(join_path(base.as_str(), dir.as_str()).as_str(), name.as_str());
            out.push(Candidate { path, crc: None });
        }
    }
    assert(out.deep_view() =~= build_id_candidates(id.deep_view(), debug_dir@));
    out
}

fn find_debug_file_by_debuglink(
    link: &Option<(Vec<u8>, u32)>,
    binary_path: &str,
    debug_dir: &str,
) -> (r: Vec<Candidate>)
    ensures
        r.deep_view() == debuglink_candidates(link.deep_view(), binary_path@, debug_dir@),
{
    let mut out: Vec<Candidate> = Vec::new();
    if let Some((bytes, crc)) = link {
        assert(bytes.deep_view() =~= bytes@);
        if let Some(name) = from_utf8(bytes.as_slice()) {
            if let Some(dir) = parent(binary_path) {
                let beside = join_path(dir.as_str(), name.as_str());
                let hidden = join_path(join_path(dir.as_str(), ".debug").as_str(), name.as_str());
                let under_debug_dir = join_path(debug_dir, strip_root(dir.as_str()).as_str());
                let installed = join_path(under_debug_dir.as_str(), name.as_str());
                out.push(Candidate { path: beside, crc: Some(*crc) });
                out.push(Candidate { path: hidden, crc: Some(*crc) });
                out.push(Candidate { path: installed, crc: Some(*crc) });
            }
        }
    }
    assert(out.deep_view() =~= debuglink_candidates(link.deep_view(), binary_path@, debug_dir@));
    out
}

/// The files that may be the debug file of the object file `content` at `binary_path`, in the
/// order in which they are tried. `debug_dirs` are those of the [`debug_directories`] that exist.
pub fn debug_file_candidates(content: &[u8], binary_path: &str, debug_dirs: &Vec<String>) -> (r: Vec<
    Candidate,
>)
    ensures
        r.deep_view() == candidates(
            crate::elf::build_id_of(content@),
            crate::elf::debuglink_of(content@),
            binary_path@,
            debug_dirs.deep_view(),
        ),
{
    let id = build_id(content);
    let link = gnu_debuglink(content);
    let mut by_id: Vec<Candidate> = Vec::new();
    let mut by_link: Vec<Candidate> = Vec::new();
    let ghost dirs = debug_dirs.deep_view();
    let mut i: usize = 0;
    assert(dirs.take(0) =~= seq![]);
    assert(by_id.deep_view() =~= seq![]);
    assert(by_link.deep_view() =~= seq![]);
    while i < debug_dirs.len()
        invariant
            i <= debug_dirs@.len(),
            dirs == debug_dirs.deep_view(),
            by_id.deep_view() == all_build_id_candidates(id.deep_view(), dirs.take(i as int)),
            by_link.deep_view() == all_debuglink_candidates(
                link.deep_view(),
                binary_path@,
                dirs.take(i as int),
            ),
        decreases debug_dirs.len() - i,
    {
        let dir = debug_dirs[i].as_str();
        assert(dirs.take(i + 1).drop_last() =~= dirs.take(i as int));
        assert(dirs.take(i + 1).last() == dir@);
        let ghost ids = by_id.deep_view();
        let ghost links = by_link.deep_view();
        let mut first = find_debug_file_by_build_id(&id, dir);
        let mut second = find_debug_file_by_debuglink(&link, binary_path, dir);
        let ghost a = first.deep_view();
        let ghost b = second.deep_view();
        by_id.append(&mut first);
        by_link.append(&mut second);
        assert(by_id.deep_view() =~= ids + a);
        assert(by_link.deep_view() =~= links + b);
        i = i + 1;
    }
    assert(dirs.take(dirs.len() as int) =~= dirs);
    let ghost ids = by_id.deep_view();
    let ghost links = by_link.deep_view();
    by_id.append(&mut by_link);
    assert(by_id.deep_view() =~= ids + links);
    by_id
}

/// Whether a candidate is the debug file, given what is found there.
pub open spec fn accepted(candidate: (Seq<char>, Option<u32>), file: FileState) -> bool {
    match candidate.1 {
        Some(crc) => file.content matches Some(bytes) && crc32(bytes@) == crc,
        None => file.exists,
    }
}

/// The first of the candidates that were looked at that is the debug file.
pub open spec fn first_accepted(
    candidates: Seq<(Seq<char>, Option<u32>)>,
    files: Seq<FileState>,
) -> Option<Seq<char>>
    decreases candidates.len(),
{
    if candidates.len() == 0 || files.len() == 0 {
        None
    } else if accepted(candidates[0], files[0]) {
        Some(candidates[0].0)
    } else {
        first_accepted(candidates.skip(1), files.skip(1))
    }
}

/// The debug file: the first of the candidates that is accepted. `files` tells what is found at
/// the candidates, in the same order, as far as they were looked at.
pub fn find_debug_file(candidates: &Vec<Candidate>, files: &Vec<FileState>) -> (r: Option<String>)
    ensures
        r.deep_view() == first_accepted(candidates.deep_view(), files@),
{
    let ghost all = candidates.deep_view();
    let mut i: usize = 0;
    assert(all.skip(0) =~= all);
    assert(files@.skip(0) =~= files@);
    while i < candidates.len() && i < files.len()
        invariant
            i <= candidates@.len(),
            i <= files@.len(),
            all == candidates.deep_view(),
            first_accepted(all, files@) == first_accepted(all.skip(i as int), files@.skip(i as int)),
        decreases candidates.len() - i,
    {
        assert(all[i as int] == candidates@[i as int].deep_view());
        assert(all.skip(i as int).skip(1) =~= all.skip(i + 1));
        assert(files@.skip(i as int).skip(1) =~= files@.skip(i + 1));
        let matches: bool = match candidates[i].crc {
            Some(crc) => match &files[i].content {
                Some(bytes) => crc32_of(bytes.as_slice()) == crc,
                None => false,
            },
            None => files[i].exists,
        };
        if matches {
            return Some(candidates[i].path.clone());
        }
        i = i + 1;
    }
    None
}

/// The candidates for a build ID have no checksum to match.
proof fn lemma_build_ids_have_no_checksum(id: Option<Seq<u8>>, debug_dirs: Seq<Seq<char>>)
    ensures
        forall|i: int|
            0 <= i < all_build_id_candidates(id, debug_dirs).len() ==> (
            #[trigger] all_build_id_candidates(id, debug_dirs)[i]).1 is None,
    decreases debug_dirs.len(),
{
    if debug_dirs.len() > 0 {
        lemma_build_ids_have_no_checksum(id, debug_dirs.drop_last());
    }
}

/// What is found first comes before all else that is accepted.
proof fn lemma_first_accepted(
    candidates: Seq<(Seq<char>, Option<u32>)>,
    files: Seq<FileState>,
    i: int,
)
    requires
        0 <= i < candidates.len(),
        i < files.len(),
        accepted(candidates[i], files[i]),
    ensures
        exists|k: int|
            0 <= k <= i && accepted(#[trigger] candidates[k], files[k]) && first_accepted(
                candidates,
                files,
            ) == Some(candidates[k].0),
    decreases candidates.len(),
{
    if accepted(candidates[0], files[0]) {
        assert(0 <= 0 <= i);
    } else {
        let rest = candidates.skip(1);
        lemma_first_accepted(rest, files.skip(1), i - 1);
        let k = choose|k: int|
            0 <= k <= i - 1 && accepted(#[trigger] rest[k], files.skip(1)[k]) && first_accepted(
                rest,
                files.skip(1),
            ) == Some(rest[k].0);
        assert(candidates[k + 1] == rest[k]);
        assert(files[k + 1] == files.skip(1)[k]);
    }
}

/// A debug file for the build ID wins over any for a debug link: where there is one under some
/// directory, the file that is found is one for the build ID.
pub proof fn law_build_id_wins(
    id: Option<Seq<u8>>,
    link: Option<(Seq<u8>, u32)>,
    binary_path: Seq<char>,
    debug_dirs: Seq<Seq<char>>,
    files: Seq<FileState>,
    i: int,
)
    requires
        files.len() == candidates(id, link, binary_path, debug_dirs).len(),
        0 <= i < all_build_id_candidates(id, debug_dirs).len(),
        files[i].exists,
    ensures
        exists|k: int|
            0 <= k <= i && files[k].exists && first_accepted(
                candidates(id, link, binary_path, debug_dirs),
                files,
            ) == Some((#[trigger] all_build_id_candidates(id, debug_dirs)[k]).0),
{
    let all = candidates(id, link, binary_path, debug_dirs);
    let ids = all_build_id_candidates(id, debug_dirs);
    lemma_build_ids_have_no_checksum(id, debug_dirs);
    assert(all[i] == ids[i]);
    lemma_first_accepted(all, files, i);
    let k = choose|k: int|
        0 <= k <= i && accepted(#[trigger] all[k], files[k]) && first_accepted(all, files) == Some(
            all[k].0,
        );
    assert(all[k] == ids[k]);
}

/// Whether a file may be taken for the debug file: it has the checksum that it must have, or exists
/// where it need not have one.
pub open spec fn is_the_one(candidate: Candidate, file: FileState) -> bool {
    ||| candidate.crc is None && file.exists
    ||| candidate.crc is Some && file.content is Some && crc32(file.content->0@) == candidate.crc->0
}

/// The debug file is the first candidate that exists, or that has its checksum where it must have one.
/// There is none only where no candidate is such.
pub proof fn law_first_matching_file_is_taken(
    candidates: &Vec<Candidate>,
    files: &Vec<FileState>,
    r: Option<String>,
    k: int,
)
    requires
        call_ensures(find_debug_file, (candidates, files), r),
        files@.len() == candidates@.len(),
    ensures
        0 <= k < files@.len() && is_the_one(candidates@[k], files@[k]) && (forall|j: int|
            0 <= j < k ==> !is_the_one(#[trigger] candidates@[j], files@[j])) ==> (r matches Some(path)
            && path@ == candidates@[k].path@),
        (forall|j: int| 0 <= j < files@.len() ==> !is_the_one(#[trigger] candidates@[j], files@[j]))
            ==> r is None,
{
    let all = candidates.deep_view();
    if 0 <= k < files@.len() && is_the_one(candidates@[k], files@[k]) && (forall|j: int|
        0 <= j < k ==> !is_the_one(#[trigger] candidates@[j], files@[j])) {
        assert forall|j: int| 0 <= j < k implies !accepted(#[trigger] all[j], files@[j]) by {
            assert(!is_the_one(candidates@[j], files@[j]));
        }
        lemma_none_before(all, files@, k);
        assert(all[k] == candidates@[k].deep_view());
    }
    if forall|j: int| 0 <= j < files@.len() ==> !is_the_one(#[trigger] candidates@[j], files@[j]) {
        assert forall|j: int| 0 <= j < all.len() implies !accepted(#[trigger] all[j], files@[j]) by {
            assert(!is_the_one(candidates@[j], files@[j]));
        }
        lemma_none_before(all, files@, all.len() as int);
    }
}

proof fn lemma_none_before(
    candidates: Seq<(Seq<char>, Option<u32>)>,
    files: Seq<FileState>,
    k: int,
)
    requires
        candidates.len() == files.len(),
        0 <= k <= candidates.len(),
        forall|j: int| 0 <= j < k ==> !accepted(#[trigger] candidates[j], files[j]),
        k < candidates.len() ==> accepted(candidates[k], files[k]),
    ensures
        first_accepted(candidates, files) == (if k < candidates.len() {
            Some(candidates[k].0)
        } else {
            None
        }),
    decreases k,
{
    if k > 0 {
        let rest = candidates.skip(1);
        let more = files.skip(1);
        assert(!accepted(candidates[0], files[0]));
        assert forall|j: int| 0 <= j < k - 1 implies !accepted(#[trigger] rest[j], more[j]) by {
            assert(rest[j] == candidates[j + 1]);
        }
        lemma_none_before(rest, more, k - 1);
    }
}

proof fn lemma_candidates_of_a_directory(
    id: Option<Seq<u8>>,
    link: Option<(Seq<u8>, u32)>,
    binary_path: Seq<char>,
    dirs: Seq<Seq<char>>,
    k: int,
    c: (Seq<char>, Option<u32>),
)
    requires
        0 <= k < dirs.len(),
    ensures
        build_id_candidates(id, dirs[k]).contains(c) ==> all_build_id_candidates(id, dirs).contains(c),
        debuglink_candidates(link, binary_path, dirs[k]).contains(c) ==> all_debuglink_candidates(
            link,
            binary_path,
            dirs,
        ).contains(c),
    decreases dirs.len(),
{
    let rest = dirs.drop_last();
    let ids = all_build_id_candidates(id, rest);
    let links = all_debuglink_candidates(link, binary_path, rest);
    if k < rest.len() {
        lemma_candidates_of_a_directory(id, link, binary_path, rest, k, c);
        if ids.contains(c) {
            assert(all_build_id_candidates(id, dirs)[ids.index_of(c)] == c);
        }
        if links.contains(c) {
            assert(all_debuglink_candidates(link, binary_path, dirs)[links.index_of(c)] == c);
        }
    } else {
        let a = build_id_candidates(id, dirs[k]);
        let b = debuglink_candidates(link, binary_path, dirs[k]);
        if a.contains(c) {
            assert(all_build_id_candidates(id, dirs)[ids.len() + a.index_of(c)] == c);
        }
        if b.contains(c) {
            assert(all_debuglink_candidates(link, binary_path, dirs)[links.len() + b.index_of(c)] == c);
        }
    }
}

/// The debug file of a build is looked for in every directory: in a directory that is named after the
/// first byte of the build ID, under the name that the other bytes give. It need not have a checksum.
pub proof fn law_build_id_is_looked_for_everywhere(
    content: &[u8],
    binary_path: &str,
    debug_dirs: &Vec<String>,
    r: Vec<Candidate>,
    id: Seq<u8>,
    k: int,
)
    requires
        call_ensures(debug_file_candidates, (content, binary_path, debug_dirs), r),
        crate::elf::build_id_of(content@) == Some(id),
        id.len() > 1,
        0 <= k < debug_dirs@.len(),
        debug_dirs@[k]@.len() > 0,
        debug_dirs@[k]@.last() != '/',
    ensures
        r.deep_view().contains(
            (
                debug_dirs@[k]@ + "/.build-id/"@ + crate::numeral::bytes_hex(id.take(1)) + "/"@
                    + crate::numeral::bytes_hex(id.skip(1)) + ".debug"@,
                None,
            ),
        ),
{
    let dirs = debug_dirs.deep_view();
    assert(dirs[k] == debug_dirs@[k]@);
    let head = crate::numeral::bytes_hex(id.take(1));
    let tail = crate::numeral::bytes_hex(id.skip(1)) + ".debug"@;
    crate::numeral::law_bytes_have_two_digits_each(id.take(1), 0);
    crate::numeral::law_bytes_have_two_digits_each(id.skip(1), 0);
    lemma_hex_has_no_separator(id.take(1));
    lemma_hex_has_no_separator(id.skip(1));
    reveal_strlit("/.build-id/");
    reveal_strlit(".build-id");
    reveal_strlit("/");
    assert(crate::numeral::bytes_hex(id.skip(1))[0] != '/');
    let base = crate::path::joined_path(dirs[k], ".build-id"@);
    assert(base =~= dirs[k] + seq!['/'] + ".build-id"@);
    let dir = crate::path::joined_path(base, head);
    assert(base.last() == 'd');
    assert(dir =~= base + seq!['/'] + head);
    assert(dir.last() == head[head.len() - 1]);
    let c = (build_id_path(id, dirs[k]), None::<u32>);
    assert(tail[0] == crate::numeral::bytes_hex(id.skip(1))[0]);
    assert(c.0 =~= dirs[k] + "/.build-id/"@ + head + "/"@ + crate::numeral::bytes_hex(id.skip(1))
        + ".debug"@);
    assert(build_id_candidates(Some(id), dirs[k])[0] == c);
    let link = crate::elf::debuglink_of(content@);
    lemma_candidates_of_a_directory(Some(id), link, binary_path@, dirs, k, c);
    let ids = all_build_id_candidates(Some(id), dirs);
    assert(r.deep_view()[ids.index_of(c)] == c);
}

proof fn lemma_hex_has_no_separator(bytes: Seq<u8>)
    ensures
        forall|i: int|
            0 <= i < crate::numeral::bytes_hex(bytes).len() ==> #[trigger] crate::numeral::bytes_hex(
                bytes,
            )[i] != '/',
    decreases bytes.len(),
{
    if bytes.len() > 0 {
        lemma_hex_has_no_separator(bytes.drop_last());
        let b = bytes.last();
        assert(crate::numeral::digit_char((b / 16) as nat) != '/');
        assert(crate::numeral::digit_char((b % 16) as nat) != '/');
        let before = crate::numeral::bytes_hex(bytes.drop_last());
        let after = crate::numeral::bytes_hex(bytes);
        assert forall|i: int| 0 <= i < after.len() implies #[trigger] after[i] != '/' by {
            if i < before.len() {
                assert(after[i] == before[i]);
            } else {
                assert(after[i] == crate::numeral::byte_hex(b)[i - before.len()]);
            }
        }
    }
}

/// The file that a debug link names is looked for beside the binary, in a directory `.debug` there,
/// and in the directory of the binary below every directory of debug files. It must have the checksum
/// of the link.
pub proof fn law_debug_link_is_looked_for(
    content: &[u8],
    binary_path: &str,
    debug_dirs: &Vec<String>,
    r: Vec<Candidate>,
    link: Seq<u8>,
    crc: u32,
    dir: Seq<char>,
    file: Seq<char>,
    k: int,
)
    requires
        call_ensures(debug_file_candidates, (content, binary_path, debug_dirs), r),
        crate::elf::debuglink_of(content@) == Some((link, crc)),
        vstd::utf8::valid_utf8(link),
        crate::path::is_plain_name(vstd::utf8::decode_utf8(link)),
        crate::path::is_plain_name(file),
        dir.len() > 0,
        dir[0] != '/',
        dir[0] != '.',
        dir.last() != '/',
        dir.last() != '.',
        binary_path@ == seq!['/'] + dir + seq!['/'] + file,
        0 <= k < debug_dirs@.len(),
        debug_dirs@[k]@.len() > 0,
        debug_dirs@[k]@.last() != '/',
    ensures
        ({
            let name = vstd::utf8::decode_utf8(link);
            &&& r.deep_view().contains((seq!['/'] + dir + seq!['/'] + name, Some(crc)))
            &&& r.deep_view().contains((seq!['/'] + dir + "/.debug/"@ + name, Some(crc)))
            &&& r.deep_view().contains(
                (debug_dirs@[k]@ + seq!['/'] + dir + seq!['/'] + name, Some(crc)),
            )
        }),
{
    let name = vstd::utf8::decode_utf8(link);
    let dirs = debug_dirs.deep_view();
    assert(dirs[k] == debug_dirs@[k]@);
    let home = seq!['/'] + dir;
    assert(home.last() == dir.last());
    crate::path::law_parent_is_the_directory(home, file);
    assert(home + seq!['/'] + file =~= binary_path@);
    crate::path::law_root_is_stripped(dir);
    reveal_strlit("/.debug/");
    reveal_strlit(".debug");
    assert(name[0] != '/');
    let list = debuglink_candidates(Some((link, crc)), binary_path@, dirs[k]);
    let a = (home + seq!['/'] + name, Some(crc));
    let b = (home + "/.debug/"@ + name, Some(crc));
    let c = (dirs[k] + seq!['/'] + dir + seq!['/'] + name, Some(crc));
    let hidden = crate::path::joined_path(home, ".debug"@);
    assert(hidden =~= home + seq!['/'] + ".debug"@);
    assert(hidden.last() == 'g');
    assert(crate::path::joined_path(hidden, name) =~= b.0);
    let under = crate::path::joined_path(dirs[k], dir);
    assert(under =~= dirs[k] + seq!['/'] + dir);
    assert(under.last() == dir.last());
    assert(list[0].0 =~= a.0);
    assert(list[1].0 =~= b.0);
    assert(list[2].0 =~= c.0);
    assert(list[0] == a && list[1] == b && list[2] == c);
    let id = crate::elf::build_id_of(content@);
    let ids = all_build_id_candidates(id, dirs);
    let links = all_debuglink_candidates(Some((link, crc)), binary_path@, dirs);
    lemma_candidates_of_a_directory(id, Some((link, crc)), binary_path@, dirs, k, a);
    lemma_candidates_of_a_directory(id, Some((link, crc)), binary_path@, dirs, k, b);
    lemma_candidates_of_a_directory(id, Some((link, crc)), binary_path@, dirs, k, c);
    assert(r.deep_view()[ids.len() + links.index_of(a)] == a);
    assert(r.deep_view()[ids.len() + links.index_of(b)] == b);
    assert(r.deep_view()[ids.len() + links.index_of(c)] == c);
}

/// Debug files are looked for below the directory that most systems keep them in, and then below
/// that of NixOS.
pub proof fn law_where_debug_files_are_kept(r: Vec<String>)
    requires
        call_ensures(debug_directories, (), r),
    ensures
        r@.len() == 2,
        r@[0]@ == "/usr/lib/debug"@,
        r@[1]@ == "/run/current-system/sw/lib/debug"@,
{
    let v = r.deep_view();
    assert(v.len() == r@.len());
    assert(v[0] == r@[0]@ && v[1] == r@[1]@);
}

} // verus!
