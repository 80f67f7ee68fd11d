//! Unix paths as text: the components that file lookups and artifact names are built from.
use vstd::prelude::*;

use crate::text::{chars_of, split_fields, str_eq, string_of, Separator};

verus! {

/// The last of `parts` that is not `.`, the component that names its own directory.
pub open spec fn last_named(parts: Seq<Seq<char>>) -> Option<Seq<char>>
    decreases parts.len(),
{
    if parts.len() == 0 {
        None
    } else if parts.last() == seq!['.'] {
        last_named(parts.drop_last())
    } else {
        Some(parts.last())
    }
}

/// The final component of `path`, if it is neither the root nor `..`.
pub open spec fn file_name_of(path: Seq<char>) -> Option<Seq<char>> {
    match last_named(crate::text::fields(Separator::Slash, path)) {
        Some(name) => if name == seq!['.', '.'] {
            None
        } else {
            Some(name)
        },
        None => None,
    }
}

/// The final component of `path`, if it is neither the root nor `..`.
pub fn file_name(path: &str) -> (r: Option<String>)
    ensures
        r.deep_view() == file_name_of(path@),
{
    let parts = split_fields(Separator::Slash, path);
    let ghost all = parts.deep_view();
    let mut n: usize = parts.len();
    proof {
        reveal_strlit(".");
        reveal_strlit("..");
        assert("."@ =~= seq!['.']);
        assert(".."@ =~= seq!['.', '.']);
        assert(all.take(n as int) =~= all);
    }
    while n > 0
        invariant
            n <= parts@.len(),
            all == parts.deep_view(),
            "."@ == seq!['.'],
            ".."@ == seq!['.', '.'],
            last_named(all) == last_named(all.take(n as int)),
            all == crate::text::fields(Separator::Slash, path@),
        decreases n,
    {
        assert(all.take(n as int).last() == parts[n - 1]@);
        assert(all.take(n as int).drop_last() =~= all.take(n - 1));
        if str_eq(parts[n - 1].as_str(), ".") {
            n = n - 1;
        } else if str_eq(parts[n - 1].as_str(), "..") {
            return None;
        } else {
            return Some(parts[n - 1].clone());
        }
    }
    None
}

/// The position of the last dot of `s`, if it has one.
pub open spec fn last_dot(s: Seq<char>) -> Option<int>
    decreases s.len(),
{
    if s.len() == 0 {
        None
    } else if s.last() == '.' {
        Some(s.len() - 1)
    } else {
        last_dot(s.drop_last())
    }
}

/// A file name cut at its last dot into what stands before and after it. A name whose only dot
/// leads it has nothing after.
pub open spec fn split_at_dot(name: Seq<char>) -> (Seq<char>, Option<Seq<char>>) {
    match last_dot(name) {
        Some(at) => if at == 0 {
            (name, None)
        } else {
            (name.take(at), Some(name.skip(at + 1)))
        },
        None => (name, None),
    }
}

/// The file name of `path` cut at its last dot, if it has a file name.
pub open spec fn stem_and_extension_of(path: Seq<char>) -> Option<(Seq<char>, Option<Seq<char>>)> {
    match file_name_of(path) {
        Some(name) => Some(split_at_dot(name)),
        None => None,
    }
}

/// The file name of `path` without its extension, and the extension, if there is one.
pub fn stem_and_extension(path: &str) -> (r: Option<(String, Option<String>)>)
    ensures
        r.deep_view() == stem_and_extension_of(path@),
{
    let name = match file_name(path) {
        Some(name) => name,
        None => {
            return None;
        },
    };
    let cs = chars_of(name.as_str());
    let mut n: usize = cs.len();
    assert(cs@.take(n as int) =~= cs@);
    while n > 0 && cs[n - 1] != '.'
        invariant
            n <= cs@.len(),
            last_dot(cs@) == last_dot(cs@.take(n as int)),
        decreases n,
    {
        assert(cs@.take(n as int).drop_last() =~= cs@.take(n - 1));
        n = n - 1;
    }
    if n <= 1 {
        return Some((name, None));
    }
    let stem = string_of(&cs, 0, n - 1);
    let extension = string_of(&cs, n, cs.len());
    assert(stem@ =~= name@.take(n - 1));
    assert(extension@ =~= name@.skip(n as int));
    Some((stem, Some(extension)))
}

/// `path` seen from `base`: `path` itself where it is absolute.
pub open spec fn joined_path(base: Seq<char>, path: Seq<char>) -> Seq<char> {
    if path.len() > 0 && path[0] == '/' {
        path
    } else if base.len() == 0 || base.last() == '/' {
        base + path
    } else {
        base + seq!['/'] + path
    }
}

/// `path` seen from `base`.
pub fn join_path(base: &str, path: &str) -> (r: String)
    ensures
        r@ == joined_path(base@, path@),
{
    let b = chars_of(base);
    let p = chars_of(path);
    if p.len() > 0 && p[0] == '/' {
        return path.to_owned();
    }
    let mut out = base.to_owned();
    if b.len() > 0 && b[b.len() - 1] != '/' {
        out.push('/');
        assert(out@ =~= base@ + seq!['/']);
    }
    out.append(path);
    out
}

/// How many leading characters of `path` name where it starts: the root, or a leading `.`.
pub open spec fn start_len(path: Seq<char>) -> int {
    if path.len() > 0 && (path[0] == '/' || (path[0] == '.' && (path.len() == 1 || path[1]
        == '/'))) {
        1
    } else {
        0
    }
}

/// Where the last component of `path` begins, looking no further left than `from`.
pub open spec fn component_start(path: Seq<char>, from: int) -> int
    decreases path.len(),
{
    if path.len() == 0 || path.len() <= from || path.last() == '/' {
        path.len() as int
    } else {
        component_start(path.drop_last(), from)
    }
}

/// `path` without its last component and the separator before it.
pub open spec fn without_component(path: Seq<char>, from: int) -> Seq<char> {
    let at = component_start(path, from);
    path.take(
        if at > from {
            at - 1
        } else {
            at
        },
    )
}

/// `path` without the empty and `.` components at its end.
pub open spec fn trimmed_path(path: Seq<char>, from: int) -> Seq<char>
    decreases path.len(),
{
    if 0 <= from < path.len() {
        let component = path.skip(component_start(path, from));
        let shorter = without_component(path, from);
        if (component.len() == 0 || component == seq!['.']) && shorter.len() < path.len() {
            trimmed_path(shorter, from)
        } else {
            path
        }
    } else {
        path
    }
}

/// The path without its final component: nothing for the root and the empty path.
pub open spec fn parent_of(path: Seq<char>) -> Option<Seq<char>> {
    let from = start_len(path);
    let body = trimmed_path(path, from);
    if body.len() > from {
        Some(trimmed_path(without_component(body, from), from))
    } else if path.len() > 0 && path[0] == '.' {
        Some(seq![])
    } else {
        None
    }
}

/// Where the last component of `cs[..to]` begins.
fn find_component(cs: &Vec<char>, to: usize, from: usize) -> (r: usize)
    requires
        from <= to <= cs@.len(),
    ensures
        r == component_start(cs@.take(to as int), from as int),
        from <= r <= to,
{
    let mut i: usize = to;
    while i > from && cs[i - 1] != '/'
        invariant
            from <= i <= to <= cs@.len(),
            component_start(cs@.take(to as int), from as int) == component_start(
                cs@.take(i as int),
                from as int,
            ),
        decreases i,
    {
        assert(cs@.take(i as int).drop_last() =~= cs@.take(i - 1));
        i = i - 1;
    }
    i
}

/// The length of `cs[..to]` without the empty and `.` components at its end.
fn trimmed_len(cs: &Vec<char>, to: usize, from: usize) -> (r: usize)
    requires
        from <= to <= cs@.len(),
    ensures
        from <= r <= to,
        cs@.take(r as int) == trimmed_path(cs@.take(to as int), from as int),
{
    let mut end: usize = to;
    while end > from
        invariant
            from <= end <= to <= cs@.len(),
            trimmed_path(cs@.take(end as int), from as int) == trimmed_path(
                cs@.take(to as int),
                from as int,
            ),
        decreases end,
    {
        let at: usize = find_component(cs, end, from);
        let ghost p = cs@.take(end as int);
        let ghost component = p.skip(at as int);
        assert(component.len() == end - at);
        let shorter: usize = if at > from {
            at - 1
        } else {
            at
        };
        assert(without_component(p, from as int) =~= cs@.take(shorter as int));
        if at == end {
            end = shorter;
        } else if end - at == 1 && cs[at] == '.' {
            assert(component =~= seq!['.']);
            end = shorter;
        } else {
            proof {
                if component == seq!['.'] {
                    assert(component[0] == '.');
                }
            }
            return end;
        }
    }
    end
}

/// The path without its final component.
pub fn parent(path: &str) -> (r: Option<String>)
    ensures
        r.deep_view() == parent_of(path@),
{
    let cs = chars_of(path);
    assert(cs@.take(cs@.len() as int) =~= cs@);
    if cs.len() == 0 {
        return None;
    }
    let from: usize = if cs[0] == '/' || (cs[0] == '.' && (cs.len() == 1 || cs[1] == '/')) {
        1
    } else {
        0
    };
    let body: usize = trimmed_len(&cs, cs.len(), from);
    if body > from {
        let at: usize = find_component(&cs, body, from);
        let shorter: usize = if at > from {
            at - 1
        } else {
            at
        };
        assert(without_component(cs@.take(body as int), from as int) =~= cs@.take(shorter as int));
        let end: usize = trimmed_len(&cs, shorter, from);
        let out = string_of(&cs, 0, end);
        assert(out@ =~= cs@.take(end as int));
        Some(out)
    } else if cs[0] == '.' {
        let out = String::new();
        assert(out@ =~= seq![]);
        Some(out)
    } else {
        None
    }
}

/// `path` without the empty and `.` components at its start.
pub open spec fn body_of(path: Seq<char>) -> Seq<char>
    decreases path.len(),
{
    if path.len() == 0 {
        path
    } else if path[0] == '/' {
        body_of(path.skip(1))
    } else if path[0] == '.' && path.len() == 1 {
        seq![]
    } else if path[0] == '.' && path[1] == '/' {
        body_of(path.skip(2))
    } else {
        path
    }
}

/// An absolute path as seen from the root; others as they are.
pub open spec fn from_root(path: Seq<char>) -> Seq<char> {
    if path.len() > 0 && path[0] == '/' {
        body_of(path)
    } else {
        path
    }
}

/// An absolute path as seen from the root; others as they are.
pub fn strip_root(path: &str) -> (r: String)
    ensures
        r@ == from_root(path@),
{
    let cs = chars_of(path);
    if cs.len() == 0 || cs[0] != '/' {
        return path.to_owned();
    }
    let mut i: usize = 0;
    assert(cs@.skip(0) =~= cs@);
    while i < cs.len()
        invariant
            i <= cs@.len(),
            body_of(path@) == body_of(cs@.skip(i as int)),
            from_root(path@) == body_of(path@),
        decreases cs.len() - i,
    {
        let ghost rest = cs@.skip(i as int);
        assert(rest[0] == cs@[i as int]);
        if cs[i] == '/' {
            assert(rest.skip(1) =~= cs@.skip(i + 1));
            i = i + 1;
        } else if cs[i] == '.' && i + 1 == cs.len() {
            let out = String::new();
            assert(out@ =~= seq![]);
            return out;
        } else if cs[i] == '.' && cs[i + 1] == '/' {
            assert(rest[1] == '/');
            assert(rest.skip(2) =~= cs@.skip(i + 2));
            i = i + 2;
        } else {
            if i + 1 < cs.len() {
                assert(rest[1] == cs@[i + 1]);
            }
            let out = string_of(&cs, i, cs.len());
            assert(out@ =~= rest);
            return out;
        }
    }
    let out = String::new();
    assert(out@ =~= cs@.skip(i as int));
    out
}

/// A path as it is compared: repeated separators and `.` make no difference, except that a path that
/// starts with `.` is told from one that does not.
#[verifier::ext_equal]
pub struct Components {
    pub from_root: bool,
    pub from_here: bool,
    pub names: Seq<Seq<char>>,
}

/// The parts that are not `.`.
pub open spec fn named_parts(parts: Seq<Seq<char>>) -> Seq<Seq<char>>
    decreases parts.len(),
{
    if parts.len() == 0 {
        seq![]
    } else if parts.last() == seq!['.'] {
        named_parts(parts.drop_last())
    } else {
        named_parts(parts.drop_last()).push(parts.last())
    }
}

/// The components of a path.
pub open spec fn components_of(path: Seq<char>) -> Components {
    Components {
        from_root: path.len() > 0 && path[0] == '/',
        from_here: path.len() > 0 && path[0] == '.' && (path.len() == 1 || path[1] == '/'),
        names: named_parts(crate::text::fields(Separator::Slash, path)),
    }
}

proof fn lemma_last_named(parts: Seq<Seq<char>>)
    ensures
        last_named(parts) == (if named_parts(parts).len() > 0 {
            Some(named_parts(parts).last())
        } else {
            None
        }),
    decreases parts.len(),
{
    if parts.len() > 0 {
        lemma_last_named(parts.drop_last());
    }
}

/// Paths with the same components have the same file name.
pub proof fn lemma_same_file_name(a: Seq<char>, b: Seq<char>)
    requires
        components_of(a) == components_of(b),
    ensures
        file_name_of(a) == file_name_of(b),
{
    lemma_last_named(crate::text::fields(Separator::Slash, a));
    lemma_last_named(crate::text::fields(Separator::Slash, b));
}

fn names_of(path: &str) -> (r: Vec<String>)
    ensures
        r.deep_view() == components_of(path@).names,
{
    let parts = split_fields(Separator::Slash, path);
    let ghost all = parts.deep_view();
    let mut out: Vec<String> = Vec::new();
    let mut i: usize = 0;
    proof {
        reveal_strlit(".");
        assert("."@ =~= seq!['.']);
        assert(all.take(0) =~= seq![]);
        assert(out.deep_view() =~= seq![]);
    }
    while i < parts.len()
        invariant
            i <= parts@.len(),
            all == parts.deep_view(),
            "."@ == seq!['.'],
            out.deep_view() == named_parts(all.take(i as int)),
        decreases parts.len() - i,
    {
        assert(all.take(i + 1).drop_last() =~= all.take(i as int));
        assert(all.take(i + 1).last() == parts@[i as int]@);
        if !str_eq(parts[i].as_str(), ".") {
            let ghost before = out;
            out.push(parts[i].clone());
            proof {
                crate::list::lemma_deep_push(before, out@.last(), out);
            }
        }
        i = i + 1;
    }
    assert(all.take(all.len() as int) =~= all);
    out
}

/// Whether two paths have the same components.
pub fn same_path(a: &str, b: &str) -> (r: bool)
    ensures
        r == (components_of(a@) == components_of(b@)),
{
    let (x, y) = (chars_of(a), chars_of(b));
    let a_root: bool = x.len() > 0 && x[0] == '/';
    let b_root: bool = y.len() > 0 && y[0] == '/';
    let a_here: bool = x.len() > 0 && x[0] == '.' && (x.len() == 1 || x[1] == '/');
    let b_here: bool = y.len() > 0 && y[0] == '.' && (y.len() == 1 || y[1] == '/');
    if a_root != b_root || a_here != b_here {
        return false;
    }
    let (p, q) = (names_of(a), names_of(b));
    let ghost (s, t) = (p.deep_view(), q.deep_view());
    if p.len() != q.len() {
        assert(s.len() != t.len());
        return false;
    }
    let mut i: usize = 0;
    while i < p.len()
        invariant
            p@.len() == q@.len(),
            s == p.deep_view(),
            t == q.deep_view(),
            s == components_of(a@).names,
            t == components_of(b@).names,
            i <= p@.len(),
            forall|j: int| 0 <= j < i ==> s[j] == t[j],
        decreases p.len() - i,
    {
        assert(s[i as int] == p@[i as int]@);
        assert(t[i as int] == q@[i as int]@);
        if !str_eq(p[i].as_str(), q[i].as_str()) {
            return false;
        }
        i = i + 1;
    }
    assert(s =~= t);
    assert(components_of(a@) =~= components_of(b@));
    true
}

// ---------------------------------------------------------------------------------------------
// Laws
// ---------------------------------------------------------------------------------------------

/// Whether `name` can name a file in a directory: it is neither empty nor `.` nor `..`, and has no
/// separator in it.
pub open spec fn is_plain_name(name: Seq<char>) -> bool {
    &&& name.len() > 0
    &&& name != seq!['.']
    &&& name != seq!['.', '.']
    &&& forall|i: int| 0 <= i < name.len() ==> #[trigger] name[i] != '/'
}

/// A path is put after the other with one separator between them, unless it is absolute: then it
/// stands alone.
pub proof fn law_joined_paths_have_one_separator(base: Seq<char>, path: Seq<char>)
    ensures
        path.len() > 0 && path[0] == '/' ==> joined_path(base, path) == path,
        !(path.len() > 0 && path[0] == '/') && base.len() > 0 && base.last() != '/' ==> joined_path(
            base,
            path,
        ) == base + seq!['/'] + path && joined_path(base + seq!['/'], path) == joined_path(base, path),
        !(path.len() > 0 && path[0] == '/') ==> joined_path(Seq::empty(), path) == path,
{
    assert(Seq::<char>::empty() + path =~= path);
}

/// A file in a directory has the name that it was given there, and separators at the end of a path
/// do not change it. A path that ends with `..` names no file.
pub proof fn law_file_has_its_name(base: Seq<char>, name: Seq<char>)
    requires
        is_plain_name(name),
    ensures
        file_name_of(joined_path(base, name)) == Some(name),
        file_name_of(joined_path(base, name) + seq!['/']) == Some(name),
        file_name_of(joined_path(base, seq!['.', '.'])) is None,
        file_name_of(seq!['/']) is None,
        file_name_of(Seq::empty()) is None,
{
    lemma_last_field(base, name);
    let up = seq!['.', '.'];
    assert(up[0] != '/' && up[1] != '/');
    assert(up.len() != seq!['.'].len());
    lemma_last_field(base, up);
    let whole = joined_path(base, name);
    crate::text::law_fields_are_cut_at_separators(Separator::Slash, whole, '/', Seq::empty());
    assert(whole + seq!['/'] + Seq::<char>::empty() =~= whole + seq!['/']);
    let parts = crate::text::fields(Separator::Slash, whole);
    assert(parts + crate::text::fields(Separator::Slash, Seq::empty()) =~= parts);
    crate::text::law_fields_are_cut_at_separators(
        Separator::Slash,
        Seq::empty(),
        '/',
        Seq::empty(),
    );
    assert(Seq::<char>::empty() + seq!['/'] + Seq::<char>::empty() =~= seq!['/']);
    assert(crate::text::fields(Separator::Slash, seq!['/']).len() == 0);
}

/// The last part of a path is the name that was put at its end.
proof fn lemma_last_field(base: Seq<char>, name: Seq<char>)
    requires
        name.len() > 0,
        forall|i: int| 0 <= i < name.len() ==> #[trigger] name[i] != '/',
    ensures
        crate::text::fields(Separator::Slash, joined_path(base, name)).len() > 0,
        crate::text::fields(Separator::Slash, joined_path(base, name)).last() == name,
{
    let none = Seq::<char>::empty();
    crate::text::law_fields_are_cut_at_separators(Separator::Slash, name, '/', none);
    if base.len() == 0 {
        assert(joined_path(base, name) =~= name);
    } else if base.last() == '/' {
        let start = base.drop_last();
        crate::text::law_fields_are_cut_at_separators(Separator::Slash, start, '/', name);
        assert(joined_path(base, name) =~= start + seq!['/'] + name);
    } else {
        crate::text::law_fields_are_cut_at_separators(Separator::Slash, base, '/', name);
        assert(joined_path(base, name) =~= base + seq!['/'] + name);
    }
}

/// The extension of a file name is what follows its last dot; a name without a dot has none, nor has
/// one whose only dot leads it.
pub proof fn law_extension_follows_the_last_dot(stem: Seq<char>, extension: Seq<char>)
    requires
        forall|i: int| 0 <= i < extension.len() ==> #[trigger] extension[i] != '.',
    ensures
        stem.len() > 0 ==> split_at_dot(stem + seq!['.'] + extension) == (stem, Some(extension)),
        split_at_dot(seq!['.'] + extension) == (seq!['.'] + extension, None::<Seq<char>>),
        split_at_dot(extension) == (extension, None::<Seq<char>>),
{
    lemma_last_dot(stem, extension);
    lemma_last_dot(Seq::empty(), extension);
    lemma_no_dot(extension);
    let whole = stem + seq!['.'] + extension;
    assert(whole.take(stem.len() as int) =~= stem);
    assert(whole.skip(stem.len() as int + 1) =~= extension);
    assert(Seq::<char>::empty() + seq!['.'] + extension =~= seq!['.'] + extension);
}

proof fn lemma_last_dot(stem: Seq<char>, extension: Seq<char>)
    requires
        forall|i: int| 0 <= i < extension.len() ==> #[trigger] extension[i] != '.',
    ensures
        last_dot(stem + seq!['.'] + extension) == Some(stem.len() as int),
    decreases extension.len(),
{
    let whole = stem + seq!['.'] + extension;
    if extension.len() > 0 {
        assert(whole.last() == extension[extension.len() - 1]);
        assert(whole.drop_last() =~= stem + seq!['.'] + extension.drop_last());
        lemma_last_dot(stem, extension.drop_last());
    } else {
        assert(whole.last() == '.');
    }
}

proof fn lemma_no_dot(s: Seq<char>)
    requires
        forall|i: int| 0 <= i < s.len() ==> #[trigger] s[i] != '.',
    ensures
        last_dot(s) is None,
    decreases s.len(),
{
    if s.len() > 0 {
        assert(s[s.len() - 1] != '.');
        lemma_no_dot(s.drop_last());
    }
}

/// The parent of a file in a directory is that directory. The parent of a file in the root is the
/// root, that of a bare name is the empty path, and neither the root nor the empty path has one.
pub proof fn law_parent_is_the_directory(base: Seq<char>, name: Seq<char>)
    requires
        is_plain_name(name),
        base.len() > 0,
        base.last() != '/',
        base.last() != '.',
    ensures
        parent_of(base + seq!['/'] + name) == Some(base),
        parent_of(seq!['/'] + name) == Some(seq!['/']),
        name[0] != '.' ==> parent_of(name) == Some(Seq::<char>::empty()),
        parent_of(seq!['/']) is None,
        parent_of(Seq::empty()) is None,
{
    let path = base + seq!['/'] + name;
    let from = start_len(path);
    assert(path[0] == base[0]);
    if base.len() > 1 {
        assert(path[1] == base[1]);
    }
    assert(from < base.len());
    lemma_component_start(base + seq!['/'], name, from);
    assert(base + seq!['/'] + name =~= path);
    assert(path.skip(base.len() as int + 1) =~= name);
    assert(path.take(base.len() as int) =~= base);
    lemma_component_before(base, from);
    let at = component_start(base, from);
    assert(base.skip(at).last() == base.last());

    let top = seq!['/'] + name;
    lemma_component_start(seq!['/'], name, 1);
    assert(top.skip(1) =~= name);
    assert(top.take(1) =~= seq!['/']);
    assert(start_len(top) == 1);

    if name[0] != '.' {
        assert(start_len(name) == 0);
        lemma_component_start(Seq::empty(), name, 0);
        assert(Seq::<char>::empty() + name =~= name);
        assert(name.skip(0) =~= name);
        assert(name.take(0) =~= Seq::<char>::empty());
    }
}

/// The last component begins after the last separator.
proof fn lemma_component_start(start: Seq<char>, name: Seq<char>, from: int)
    requires
        forall|i: int| 0 <= i < name.len() ==> #[trigger] name[i] != '/',
        0 <= from <= start.len(),
        start.len() == from || start.last() == '/',
    ensures
        component_start(start + name, from) == start.len(),
    decreases name.len(),
{
    let path = start + name;
    if name.len() > 0 {
        assert(path.last() == name[name.len() - 1]);
        assert(path.drop_last() =~= start + name.drop_last());
        lemma_component_start(start, name.drop_last(), from);
    } else {
        assert(path =~= start);
    }
}

proof fn lemma_component_before(path: Seq<char>, from: int)
    requires
        0 <= from,
    ensures
        from < path.len() && path.last() != '/' ==> from <= component_start(path, from) < path.len(),
        component_start(path, from) <= path.len(),
        from <= path.len() ==> from <= component_start(path, from),
    decreases path.len(),
{
    if from < path.len() && path.last() != '/' {
        lemma_component_before(path.drop_last(), from);
    }
}

/// An absolute path loses its leading separators as seen from the root; a relative one stays.
pub proof fn law_root_is_stripped(path: Seq<char>)
    requires
        path.len() > 0,
        path[0] != '/',
        path[0] != '.',
    ensures
        from_root(seq!['/'] + path) == path,
        from_root(seq!['/', '/'] + path) == path,
        from_root(path) == path,
{
    let one = seq!['/'] + path;
    let two = seq!['/', '/'] + path;
    assert(one.skip(1) =~= path);
    assert(two.skip(1) =~= one);
    assert(body_of(path) == path);
    assert(body_of(one) == path);
}

/// How often separators are repeated makes no difference to what a path is, nor does `.` between
/// them, nor a separator at its end.
pub proof fn law_spellings_of_a_path(a: Seq<char>, b: Seq<char>)
    requires
        a.len() > 0,
        a.last() != '/',
        a.last() != '.',
    ensures
        components_of(a + seq!['/', '/'] + b) == components_of(a + seq!['/'] + b),
        components_of(a + seq!['/', '.', '/'] + b) == components_of(a + seq!['/'] + b),
        components_of(a + seq!['/']) == components_of(a),
{
    let slash = Separator::Slash;
    let one = a + seq!['/'] + b;
    let two = a + seq!['/', '/'] + b;
    let dot = a + seq!['/', '.', '/'] + b;
    let fa = crate::text::fields(slash, a);
    let fb = crate::text::fields(slash, b);
    crate::text::law_fields_are_cut_at_separators(slash, a, '/', b);
    crate::text::law_fields_are_cut_at_separators(slash, Seq::empty(), '/', b);
    crate::text::law_fields_are_cut_at_separators(slash, a, '/', seq!['/'] + b);
    assert(Seq::<char>::empty() + seq!['/'] + b =~= seq!['/'] + b);
    assert(a + seq!['/'] + (seq!['/'] + b) =~= two);
    assert(crate::text::fields(slash, seq!['/'] + b) =~= fb);
    crate::text::law_fields_are_cut_at_separators(slash, seq!['.'], '/', b);
    crate::text::law_fields_are_cut_at_separators(slash, a, '/', seq!['.', '/'] + b);
    assert(seq!['.'] + seq!['/'] + b =~= seq!['.', '/'] + b);
    assert(a + seq!['/'] + (seq!['.', '/'] + b) =~= dot);
    assert(seq!['.'][0] != '/');
    assert(crate::text::fields(slash, dot) =~= fa + (seq![seq!['.']] + fb));
    lemma_named_parts_of_two(fa, fb);
    lemma_named_parts_of_two(fa, seq![seq!['.']] + fb);
    lemma_named_parts_of_two(seq![seq!['.']], fb);
    let here = seq![seq!['.']];
    assert(here.drop_last() =~= Seq::<Seq<char>>::empty());
    assert(here.last() == seq!['.']);
    assert(named_parts(here.drop_last()) =~= Seq::<Seq<char>>::empty());
    assert(named_parts(here) == named_parts(here.drop_last()));
    assert(named_parts(fa) + (Seq::<Seq<char>>::empty() + named_parts(fb)) =~= named_parts(fa)
        + named_parts(fb));
    crate::text::law_fields_are_cut_at_separators(slash, a, '/', Seq::empty());
    assert(a + seq!['/'] + Seq::<char>::empty() =~= a + seq!['/']);
    assert(fa + crate::text::fields(slash, Seq::empty()) =~= fa);
    assert(one[0] == a[0] && two[0] == a[0] && dot[0] == a[0]);
    if a.len() > 1 {
        assert(one[1] == a[1] && two[1] == a[1] && dot[1] == a[1]);
        assert((a + seq!['/'])[1] == a[1]);
    }
}

proof fn lemma_named_parts_of_two(a: Seq<Seq<char>>, b: Seq<Seq<char>>)
    ensures
        named_parts(a + b) == named_parts(a) + named_parts(b),
    decreases b.len(),
{
    if b.len() == 0 {
        assert(a + b =~= a);
        assert(named_parts(a) + named_parts(b) =~= named_parts(a));
    } else {
        assert((a + b).drop_last() =~= a + b.drop_last());
        lemma_named_parts_of_two(a, b.drop_last());
        assert((named_parts(a) + named_parts(b.drop_last())).push(b.last()) =~= named_parts(a)
            + named_parts(b.drop_last()).push(b.last()));
    }
}

/// Files of different names in a directory are different, as are files of one name in different
/// directories.
pub proof fn law_different_files_differ(base: Seq<char>, a: Seq<char>, b: Seq<char>)
    requires
        is_plain_name(a),
        is_plain_name(b),
        components_of(joined_path(base, a)) == components_of(joined_path(base, b)),
    ensures
        a == b,
{
    lemma_same_file_name(joined_path(base, a), joined_path(base, b));
    law_file_has_its_name(base, a);
    law_file_has_its_name(base, b);
}

} // verus!
