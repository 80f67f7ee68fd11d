//! The keys of the paths that artifacts come from.
use vstd::prelude::*;

use super::naming::indexed_semantic_key;
use crate::path::same_path;

verus! {

/// The components of some paths.
pub open spec fn places(paths: Seq<Seq<char>>) -> Seq<crate::path::Components> {
    Seq::new(paths.len(), |i: int| crate::path::components_of(paths[i]))
}

/// Whether `path`, however it is spelled, is one of `paths`.
pub open spec fn has_path(paths: Seq<Seq<char>>, path: Seq<char>) -> bool {
    places(paths).contains(crate::path::components_of(path))
}

/// Where `path`, however it is spelled, stands among `paths`.
pub open spec fn position_of(paths: Seq<Seq<char>>, path: Seq<char>) -> int {
    places(paths).index_of(crate::path::components_of(path))
}

/// `paths` with `path`, if it was missing, at the end.
pub open spec fn registered(paths: Seq<Seq<char>>, path: Seq<char>) -> Seq<Seq<char>> {
    if has_path(paths, path) {
        paths
    } else {
        paths.push(path)
    }
}

/// `paths` with those of `more` that were missing at the end.
pub open spec fn all_registered(paths: Seq<Seq<char>>, more: Seq<Seq<char>>) -> Seq<Seq<char>>
    decreases more.len(),
{
    if more.len() == 0 {
        paths
    } else {
        registered(all_registered(paths, more.drop_last()), more.last())
    }
}

/// The key of `path`, built from its position among the registered paths.
pub open spec fn key_of(paths: Seq<Seq<char>>, path: Seq<char>) -> Seq<char> {
    super::naming::semantic_key(position_of(paths, path) as nat, path)
}

/// The paths that have keys, in the order in which they got them.
#[derive(Debug)]
pub struct PathKeys {
    paths: Vec<String>,
}

impl PathKeys {
    /// The paths, in the order in which they were registered.
    pub closed spec fn view(self) -> Seq<Seq<char>> {
        self.paths.deep_view()
    }

    /// No path is registered twice, in whatever spelling.
    pub open spec fn wf(self) -> bool {
        places(self@).no_duplicates()
    }

    pub fn new() -> (r: Self)
        ensures
            r.wf(),
            r@ == Seq::<Seq<char>>::empty(),
    {
        let r = PathKeys { paths: Vec::new() };
        assert(r@ =~= seq![]);
        r
    }

    /// The position of `path`.
    fn position(&self, path: &str) -> (r: Option<usize>)
        requires
            self.wf(),
        ensures
            match r {
                Some(i) => has_path(self@, path@) && i < self@.len() && i == position_of(
                    self@,
                    path@,
                ),
                None => !has_path(self@, path@),
            },
    {
        let ghost all = places(self@);
        let ghost wanted = crate::path::components_of(path@);
        let mut i: usize = 0;
        while i < self.paths.len()
            invariant
                self.wf(),
                all == places(self@),
                wanted == crate::path::components_of(path@),
                i <= self.paths@.len(),
                self@ == self.paths.deep_view(),
                forall|j: int| 0 <= j < i ==> #[trigger] all[j] != wanted,
            decreases self.paths.len() - i,
        {
            assert(self@[i as int] == self.paths@[i as int]@);
            assert(all[i as int] == crate::path::components_of(self@[i as int]));
            if same_path(self.paths[i].as_str(), path) {
                assert(all.contains(wanted));
                return Some(i);
            }
            i = i + 1;
        }
        None
    }

    /// The key of `path`, if it has one.
    pub fn get(&self, path: &str) -> (r: Option<String>)
        requires
            self.wf(),
        ensures
            match r {
                Some(key) => has_path(self@, path@) && key@ == key_of(self@, path@),
                None => !has_path(self@, path@),
            },
    {
        match self.position(path) {
            Some(i) => Some(indexed_semantic_key(i, path)),
            None => None,
        }
    }

    /// The key of `path`, which gets the next one if it had none.
    pub fn get_or_insert_key(&mut self, path: &str) -> (r: String)
        requires
            old(self).wf(),
        ensures
            final(self).wf(),
            final(self)@ == registered(old(self)@, path@),
            r@ == key_of(final(self)@, path@),
    {
        if let Some(i) = self.position(path) {
            return indexed_semantic_key(i, path);
        }
        let n: usize = self.paths.len();
        let ghost before = self@;
        self.paths.push(path.to_owned());
        assert(self@ =~= before.push(path@));
        proof {
            lemma_registered(before, path@);
        }
        indexed_semantic_key(n, path)
    }

    /// The keys with the paths that they belong to, in the order in which they were given.
    pub fn entries(&self) -> (r: Vec<(String, String)>)
        requires
            self.wf(),
        ensures
            r@.len() == self@.len(),
            forall|i: int|
                0 <= i < r@.len() ==> (#[trigger] r@[i]).0@ == key_of(self@, self@[i]) && r@[i].1@
                    == self@[i],
    {
        let mut out: Vec<(String, String)> = Vec::new();
        let mut i: usize = 0;
        while i < self.paths.len()
            invariant
                self.wf(),
                self@ == self.paths.deep_view(),
                i <= self.paths@.len(),
                out@.len() == i,
                forall|j: int|
                    0 <= j < i ==> (#[trigger] out@[j]).0@ == key_of(self@, self@[j]) && out@[j].1@
                        == self@[j],
            decreases self.paths.len() - i,
        {
            assert(self@[i as int] == self.paths@[i as int]@);
            proof {
                lemma_position(self@, i as int);
            }
            let key = indexed_semantic_key(i, self.paths[i].as_str());
            out.push((key, self.paths[i].clone()));
            i = i + 1;
        }
        out
    }
}

/// A registered path is at its own position.
pub proof fn lemma_position(paths: Seq<Seq<char>>, i: int)
    requires
        places(paths).no_duplicates(),
        0 <= i < paths.len(),
    ensures
        has_path(paths, paths[i]),
        position_of(paths, paths[i]) == i,
{
    let all = places(paths);
    assert(all[i] == crate::path::components_of(paths[i]));
    assert(all.contains(all[i]));
}

/// Registering a path that was missing puts it at the end.
proof fn lemma_registered(paths: Seq<Seq<char>>, path: Seq<char>)
    requires
        places(paths).no_duplicates(),
        !has_path(paths, path),
    ensures
        places(paths.push(path)).no_duplicates(),
        has_path(paths.push(path), path),
        position_of(paths.push(path), path) == paths.len(),
{
    let before = places(paths);
    let after = places(paths.push(path));
    assert(after =~= before.push(crate::path::components_of(path)));
    assert forall|i: int, j: int|
        0 <= i < after.len() && 0 <= j < after.len() && i != j implies after[i] != after[j] by {
        if i < before.len() && j < before.len() {
            assert(before[i] != before[j]);
        } else if i < before.len() {
            assert(before.contains(before[i]));
        } else {
            assert(before.contains(before[j]));
        }
    }
    lemma_position(paths.push(path), paths.len() as int);
}

/// A path that is among the first of some paths keeps its position.
proof fn lemma_prefix_keeps_positions(
    paths: Seq<Seq<char>>,
    after: Seq<Seq<char>>,
    path: Seq<char>,
)
    requires
        places(after).no_duplicates(),
        paths.is_prefix_of(after),
        has_path(paths, path),
    ensures
        has_path(after, path),
        position_of(after, path) == position_of(paths, path),
{
    let i = position_of(paths, path);
    assert(places(paths)[i] == crate::path::components_of(path));
    assert(after[i] == paths[i]);
    assert(places(after)[i] == crate::path::components_of(path));
}

/// Registering paths keeps those that were registered, at the same positions.
pub proof fn lemma_all_registered(paths: Seq<Seq<char>>, more: Seq<Seq<char>>)
    requires
        places(paths).no_duplicates(),
    ensures
        places(all_registered(paths, more)).no_duplicates(),
        paths.is_prefix_of(all_registered(paths, more)),
        forall|path: Seq<char>| #[trigger]
            has_path(paths, path) ==> has_path(all_registered(paths, more), path) && position_of(
                all_registered(paths, more),
                path,
            ) == position_of(paths, path),
        forall|i: int| 0 <= i < more.len() ==> has_path(all_registered(paths, more), #[trigger] more[i]),
    decreases more.len(),
{
    if more.len() > 0 {
        lemma_all_registered(paths, more.drop_last());
        let before = all_registered(paths, more.drop_last());
        let after = registered(before, more.last());
        if !has_path(before, more.last()) {
            lemma_registered(before, more.last());
        }
        assert(before.is_prefix_of(after));
        assert forall|i: int| 0 <= i < more.len() implies has_path(after, #[trigger] more[i]) by {
            if i < more.len() - 1 {
                assert(more[i] == more.drop_last()[i]);
                lemma_prefix_keeps_positions(before, after, more[i]);
            }
        }
    }
    assert forall|path: Seq<char>| #[trigger] has_path(paths, path) implies has_path(
        all_registered(paths, more),
        path,
    ) && position_of(all_registered(paths, more), path) == position_of(paths, path) by {
        lemma_prefix_keeps_positions(paths, all_registered(paths, more), path);
    }
}

/// A key that was given does not change when more paths are registered.
pub proof fn law_keys_are_stable(paths: Seq<Seq<char>>, more: Seq<Seq<char>>, path: Seq<char>)
    requires
        places(paths).no_duplicates(),
        has_path(paths, path),
    ensures
        key_of(all_registered(paths, more), path) == key_of(paths, path),
{
    lemma_all_registered(paths, more);
}

/// Different paths have different keys.
pub proof fn law_keys_identify_paths(paths: Seq<Seq<char>>, a: Seq<char>, b: Seq<char>)
    requires
        has_path(paths, a),
        has_path(paths, b),
        crate::path::components_of(a) != crate::path::components_of(b),
    ensures
        key_of(paths, a) != key_of(paths, b),
{
    let i = position_of(paths, a);
    let j = position_of(paths, b);
    assert(places(paths)[i] == crate::path::components_of(a));
    assert(places(paths)[j] == crate::path::components_of(b));
    super::naming::law_keys_are_unique(i as nat, j as nat, a, b);
}

/// Two spellings of a path have one key.
pub proof fn law_spellings_share_a_key(paths: Seq<Seq<char>>, a: Seq<char>, b: Seq<char>)
    requires
        crate::path::components_of(a) == crate::path::components_of(b),
    ensures
        has_path(paths, a) <==> has_path(paths, b),
        key_of(paths, a) == key_of(paths, b),
{
    crate::path::lemma_same_file_name(a, b);
}

/// A path that had a key keeps it, however it is spelled, and another one gets a key that no path
/// had.
pub proof fn law_a_path_gets_its_key(keys: &mut PathKeys, path: &str, other: Seq<char>, r: String)
    requires
        call_ensures(PathKeys::get_or_insert_key, (keys, path), r),
        old(keys).wf(),
        has_path(old(keys)@, other),
    ensures
        has_path(final(keys)@, path@),
        has_path(final(keys)@, other),
        key_of(final(keys)@, other) == key_of(old(keys)@, other),
        crate::path::components_of(other) == crate::path::components_of(path@) ==> r@ == key_of(
            old(keys)@,
            other,
        ) && final(keys)@ == old(keys)@,
        crate::path::components_of(other) != crate::path::components_of(path@) ==> r@ != key_of(
            old(keys)@,
            other,
        ),
{
    let more = seq![path@];
    assert(more.drop_last() =~= Seq::empty());
    assert(all_registered(old(keys)@, Seq::empty()) == old(keys)@);
    assert(all_registered(old(keys)@, more) == registered(old(keys)@, path@));
    lemma_all_registered(old(keys)@, more);
    assert(more[0] == path@);
    law_keys_are_stable(old(keys)@, more, other);
    if crate::path::components_of(other) == crate::path::components_of(path@) {
        law_spellings_share_a_key(old(keys)@, other, path@);
    } else {
        law_keys_identify_paths(final(keys)@, path@, other);
    }
}

} // verus!
