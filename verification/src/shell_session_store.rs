//! What is stored for a shell session, under the ID of the process of the shell.
//!
//! It is found by walking up the tree of processes until one is met that something is stored for,
//! so that subshells share it.
use vstd::prelude::*;

use crate::numeral::i64_to_decimal;
use crate::path::join_path;

verus! {

/// What is stored. Each kind has its own directory.
#[derive(Debug, Clone, Copy, PartialEq, Eq, Structural)]
pub enum SessionKind {
    /// The modes set by `codspeed use`.
    Mode,
    /// The profile set by `codspeed profile use`.
    Profile,
}

impl SessionKind {
    pub open spec fn dir_name(self) -> Seq<char> {
        match self {
            SessionKind::Mode => "codspeed_use_mode"@,
            SessionKind::Profile => "codspeed_profile"@,
        }
    }

    pub fn as_dir_name(self) -> (r: &'static str)
        ensures
            r@ == self.dir_name(),
    {
        match self {
            SessionKind::Mode => "codspeed_use_mode",
            SessionKind::Profile => "codspeed_profile",
        }
    }
}

/// Where sessions are stored: under `XDG_RUNTIME_DIR`, where it is set, or else in the directory
/// for temporary files.
#[derive(Debug)]
pub struct SessionPlace {
    pub xdg_runtime_dir: Option<String>,
    pub temp_dir: String,
}

impl SessionPlace {
    /// The directory of a kind.
    pub open spec fn root(self, kind: SessionKind) -> Seq<char> {
        crate::path::joined_path(
            match self.xdg_runtime_dir {
                Some(dir) => dir@,
                None => self.temp_dir@,
            },
            kind.dir_name(),
        )
    }
}

/// The directory of a kind.
pub fn get_root_dir(kind: SessionKind, place: &SessionPlace) -> (r: String)
    ensures
        r@ == place.root(kind),
{
    match &place.xdg_runtime_dir {
        Some(dir) => join_path(dir.as_str(), kind.as_dir_name()),
        None => join_path(place.temp_dir.as_str(), kind.as_dir_name()),
    }
}

/// The file of a process.
pub open spec fn state_file(base_dir: Seq<char>, pid: i32) -> Seq<char> {
    crate::path::joined_path(base_dir, crate::numeral::signed_decimal(pid as int))
}

/// The file of a process.
pub fn get_state_file_path(base_dir: &str, pid: i32) -> (r: String)
    ensures
        r@ == state_file(base_dir@, pid),
{
    join_path(base_dir, i64_to_decimal(pid as i64).as_str())
}

/// A file to be written, in a directory that may have to be made.
#[derive(Debug)]
pub struct StateWrite {
    pub dir: String,
    pub path: String,
    pub content: String,
}

/// The process has no parent that is known.
#[derive(Debug, Clone, Copy, PartialEq, Eq)]
pub struct NoParent;

impl NoParent {
    /// The text of the error.
    pub fn message(&self) -> (r: String)
        ensures
            r@ == "Could not determine parent PID"@,
    {
        "Could not determine parent PID".to_owned()
    }
}

/// What is written to store `content` for the shell that is the parent of this process.
pub fn register(
    kind: SessionKind,
    content: String,
    place: &SessionPlace,
    parent_pid: Option<i32>,
) -> (r: Result<StateWrite, NoParent>)
    ensures
        match parent_pid {
            Some(pid) => {
                &&& r matches Ok(write)
                &&& write.dir@ == place.root(kind)
                &&& write.path@ == state_file(place.root(kind), pid)
                &&& write.content@ == content@
            },
            None => r is Err,
        },
{
    let dir = get_root_dir(kind, place);
    match parent_pid {
        Some(pid) => {
            let path = get_state_file_path(dir.as_str(), pid);
            Ok(StateWrite { dir, path, content })
        },
        None => Err(NoParent),
    }
}

/// The first of the ancestors that something is stored for.
pub open spec fn first_stored(ancestors: Seq<i32>, exists: Seq<bool>) -> Option<i32>
    decreases ancestors.len(),
{
    if ancestors.len() == 0 || exists.len() == 0 {
        None
    } else if exists[0] {
        Some(ancestors[0])
    } else {
        first_stored(ancestors.skip(1), exists.skip(1))
    }
}

/// The file that is stored for the nearest of the ancestors of this process, from its parent up.
/// `exists` tells of each, as far as was looked, whether it has a file.
pub fn load(
    kind: SessionKind,
    place: &SessionPlace,
    ancestors: &Vec<i32>,
    exists: &Vec<bool>,
) -> (r: Option<String>)
    ensures
        match first_stored(ancestors@, exists@) {
            Some(pid) => r matches Some(path) && path@ == state_file(place.root(kind), pid),
            None => r is None,
        },
{
    let dir = get_root_dir(kind, place);
    let mut i: usize = 0;
    assert(ancestors@.skip(0) =~= ancestors@);
    assert(exists@.skip(0) =~= exists@);
    while i < ancestors.len() && i < exists.len()
        invariant
            i <= ancestors@.len(),
            i <= exists@.len(),
            dir@ == place.root(kind),
            first_stored(ancestors@, exists@) == first_stored(
                ancestors@.skip(i as int),
                exists@.skip(i as int),
            ),
        decreases ancestors.len() - i,
    {
        assert(ancestors@.skip(i as int).skip(1) =~= ancestors@.skip(i + 1));
        assert(exists@.skip(i as int).skip(1) =~= exists@.skip(i + 1));
        if exists[i] {
            return Some(get_state_file_path(dir.as_str(), ancestors[i]));
        }
        i = i + 1;
    }
    None
}

/// Processes have different files.
pub proof fn law_sessions_do_not_collide(dir: Seq<char>, a: i32, b: i32)
    requires
        a != b,
    ensures
        state_file(dir, a) != state_file(dir, b),
{
    let x = crate::numeral::signed_decimal(a as int);
    let y = crate::numeral::signed_decimal(b as int);
    crate::numeral::law_signed_decimal_reads_back(a as int);
    crate::numeral::law_signed_decimal_reads_back(b as int);
    assert(x != y);
    assert(x.len() > 0 && x[0] != '/') by {
        if a < 0 {
            assert(x[0] == '-');
        } else {
            crate::numeral::law_decimal_reads_back(a as nat);
            assert(crate::numeral::is_digit(x[0]));
        }
    }
    assert(y.len() > 0 && y[0] != '/') by {
        if b < 0 {
            assert(y[0] == '-');
        } else {
            crate::numeral::law_decimal_reads_back(b as nat);
            assert(crate::numeral::is_digit(y[0]));
        }
    }
    let prefix = if dir.len() == 0 || dir.last() == '/' {
        dir
    } else {
        dir + seq!['/']
    };
    assert(state_file(dir, a) == prefix + x);
    assert(state_file(dir, b) == prefix + y);
    if prefix + x == prefix + y {
        assert((prefix + x).skip(prefix.len() as int) =~= x);
        assert((prefix + y).skip(prefix.len() as int) =~= y);
    }
}

/// What is stored of one kind never has the file of the other, whatever the processes.
pub proof fn law_kinds_do_not_collide(place: SessionPlace, a: i32, b: i32)
    ensures
        state_file(place.root(SessionKind::Mode), a) != state_file(
            place.root(SessionKind::Profile),
            b,
        ),
{
    reveal_strlit("codspeed_use_mode");
    reveal_strlit("codspeed_profile");
    let base = match place.xdg_runtime_dir {
        Some(dir) => dir@,
        None => place.temp_dir@,
    };
    let prefix = if base.len() == 0 || base.last() == '/' {
        base
    } else {
        base + seq!['/']
    };
    let mode = SessionKind::Mode.dir_name();
    let profile = SessionKind::Profile.dir_name();
    assert(mode[9] == 'u' && profile[9] == 'p');
    assert(place.root(SessionKind::Mode) == prefix + mode);
    assert(place.root(SessionKind::Profile) == prefix + profile);
    lemma_state_file_is_below(prefix + mode, a);
    lemma_state_file_is_below(prefix + profile, b);
    let at = prefix.len() as int + 9;
    assert((prefix + mode)[at] == 'u');
    assert((prefix + profile)[at] == 'p');
}

/// The path of a file starts with that of its directory.
proof fn lemma_state_file_is_below(dir: Seq<char>, pid: i32)
    ensures
        dir.is_prefix_of(state_file(dir, pid)),
{
    let x = crate::numeral::signed_decimal(pid as int);
    assert(x.len() > 0 && x[0] != '/') by {
        if pid < 0 {
            assert(x[0] == '-');
        } else {
            crate::numeral::law_decimal_reads_back(pid as nat);
            assert(crate::numeral::is_digit(x[0]));
        }
    }
    assert(dir =~= state_file(dir, pid).subrange(0, dir.len() as int));
}

/// What a shell stored is found by every process below it, unless a process in between stored
/// something of the same kind.
pub proof fn law_nearest_session_is_found(
    kind: SessionKind,
    place: &SessionPlace,
    content: String,
    pid: i32,
    written: Result<StateWrite, NoParent>,
    ancestors: &Vec<i32>,
    exists: &Vec<bool>,
    found: Option<String>,
    k: int,
)
    requires
        call_ensures(register, (kind, content, place, Some(pid)), written),
        call_ensures(load, (kind, place, ancestors, exists), found),
        ancestors@.len() == exists@.len(),
    ensures
        written matches Ok(write) && write.content@ == content@,
        0 <= k < ancestors@.len() && ancestors@[k] == pid && exists@[k] && (forall|j: int|
            0 <= j < k ==> !exists@[j]) ==> (found matches Some(path) && path@
            == written->Ok_0.path@),
        (forall|j: int| 0 <= j < exists@.len() ==> !exists@[j]) ==> found is None,
{
    if 0 <= k < ancestors@.len() && exists@[k] && (forall|j: int| 0 <= j < k ==> !exists@[j]) {
        lemma_first_stored(ancestors@, exists@, k);
    }
    if forall|j: int| 0 <= j < exists@.len() ==> !exists@[j] {
        lemma_first_stored(ancestors@, exists@, exists@.len() as int);
    }
}

proof fn lemma_first_stored(ancestors: Seq<i32>, exists: Seq<bool>, k: int)
    requires
        ancestors.len() == exists.len(),
        0 <= k <= exists.len(),
        forall|j: int| 0 <= j < k ==> !exists[j],
        k < exists.len() ==> exists[k],
    ensures
        first_stored(ancestors, exists) == (if k < exists.len() {
            Some(ancestors[k])
        } else {
            None
        }),
    decreases k,
{
    if k > 0 {
        assert(!exists[0]);
        lemma_first_stored(ancestors.skip(1), exists.skip(1), k - 1);
    }
}

/// Nothing is stored where the parent of the process is not known.
pub proof fn law_session_needs_a_parent(
    kind: SessionKind,
    place: &SessionPlace,
    content: String,
    written: Result<StateWrite, NoParent>,
)
    requires
        call_ensures(register, (kind, content, place, None), written),
    ensures
        written is Err,
{
}

/// Sessions are stored below the directory of the running system where that is set, and only
/// otherwise below that for temporary files. Each kind has a directory there, and each process a
/// file in it that is named after it.
pub proof fn law_sessions_are_stored_in_the_runtime_directory(
    place: SessionPlace,
    other: SessionPlace,
    kind: SessionKind,
    pid: i32,
)
    requires
        place.xdg_runtime_dir == other.xdg_runtime_dir,
    ensures
        place.xdg_runtime_dir is Some ==> place.root(kind) == other.root(kind),
        place.xdg_runtime_dir matches Some(dir) ==> place.root(kind) == crate::path::joined_path(
            dir@,
            kind.dir_name(),
        ),
        place.xdg_runtime_dir is None ==> place.root(kind) == crate::path::joined_path(
            place.temp_dir@,
            kind.dir_name(),
        ),
        crate::path::file_name_of(state_file(place.root(kind), pid)) == Some(
            crate::numeral::signed_decimal(pid as int),
        ),
{
    let name = crate::numeral::signed_decimal(pid as int);
    if pid < 0 {
        crate::numeral::law_decimal_reads_back((-(pid as int)) as nat);
        assert(name.skip(1) =~= crate::numeral::decimal((-(pid as int)) as nat));
        assert(name[0] == '-');
        assert forall|i: int| 0 <= i < name.len() implies #[trigger] name[i] != '/' by {
            if i > 0 {
                assert(name[i] == crate::numeral::decimal((-(pid as int)) as nat)[i - 1]);
                assert(crate::numeral::is_digit(name[i]));
            }
        }
    } else {
        crate::numeral::law_decimal_reads_back(pid as nat);
        assert forall|i: int| 0 <= i < name.len() implies #[trigger] name[i] != '/' by {
            assert(crate::numeral::is_digit(name[i]));
        }
        assert(crate::numeral::is_digit(name[0]));
    }
    crate::path::law_file_has_its_name(place.root(kind), name);
}

} // verus!
