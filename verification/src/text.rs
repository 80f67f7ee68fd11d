//! Text primitives: the parts of string handling that the rest of the crate is stated over.
//!
//! A string is modelled by the sequence of its characters. The executable functions work on
//! whole strings or on the vector of characters of one.
use vstd::prelude::*;

verus! {

/// `String::push` appends one character to the end of the string.
pub assume_specification[ String::push ](s: &mut String, c: char)
    ensures
        final(s)@ == old(s)@.push(c),
;

/// The characters of `s`, in order.
pub fn chars_of(s: &str) -> (r: Vec<char>)
    ensures
        r@ == s@,
{
    let mut out: Vec<char> = Vec::new();
    for c in it: s.chars()
        invariant
            out@ == it.seq().take(it.index()),
    {
        out.push(c);
    }
    out
}

/// The string made of the characters `cs[from..to]`.
pub fn string_of(cs: &Vec<char>, from: usize, to: usize) -> (r: String)
    requires
        from <= to <= cs@.len(),
    ensures
        r@ == cs@.subrange(from as int, to as int),
{
    let mut out = String::new();
    let mut i: usize = from;
    while i < to
        invariant
            from <= i <= to <= cs@.len(),
            out@ == cs@.subrange(from as int, i as int),
        decreases to - i,
    {
        out.push(cs[i]);
        i = i + 1;
    }
    out
}

/// Whether two string slices hold the same characters.
pub fn str_eq(a: &str, b: &str) -> (r: bool)
    ensures
        r == (a@ == b@),
{
    let x = a.to_owned();
    let y = b.to_owned();
    x == y
}

/// One text after another.
pub fn concat(a: &str, b: &str) -> (r: String)
    ensures
        r@ == a@ + b@,
{
    let mut text = a.to_owned();
    text.append(b);
    text
}

/// Whether one of `list` is the string `s`.
pub fn contains_str(list: &Vec<String>, s: &str) -> (r: bool)
    ensures
        r == list.deep_view().contains(s@),
{
    let ghost all = list.deep_view();
    let mut i: usize = 0;
    while i < list.len()
        invariant
            i <= list@.len(),
            all == list.deep_view(),
            forall|j: int| 0 <= j < i ==> all[j] != s@,
        decreases list.len() - i,
    {
        if str_eq(list[i].as_str(), s) {
            assert(all[i as int] == s@);
            return true;
        }
        i = i + 1;
    }
    false
}

// ---------------------------------------------------------------------------------------------
// Whitespace, trimming and splitting
// ---------------------------------------------------------------------------------------------

/// The characters with the Unicode property `White_Space`.
pub open spec fn whitespace(c: char) -> bool {
    ||| 0x9 <= c as u32 <= 0xd
    ||| c as u32 == 0x20
    ||| c as u32 == 0x85
    ||| c as u32 == 0xa0
    ||| c as u32 == 0x1680
    ||| 0x2000 <= c as u32 <= 0x200a
    ||| c as u32 == 0x2028
    ||| c as u32 == 0x2029
    ||| c as u32 == 0x202f
    ||| c as u32 == 0x205f
    ||| c as u32 == 0x3000
}

pub fn is_whitespace(c: char) -> (r: bool)
    ensures
        r == whitespace(c),
{
    let n: u32 = c as u32;
    (0x9 <= n && n <= 0xd) || n == 0x20 || n == 0x85 || n == 0xa0 || n == 0x1680 || (0x2000 <= n
        && n <= 0x200a) || n == 0x2028 || n == 0x2029 || n == 0x202f || n == 0x205f || n == 0x3000
}

/// `s` without its leading whitespace.
pub open spec fn trimmed_start(s: Seq<char>) -> Seq<char>
    decreases s.len(),
{
    if s.len() > 0 && whitespace(s[0]) {
        trimmed_start(s.skip(1))
    } else {
        s
    }
}

/// `s` without its trailing whitespace.
pub open spec fn trimmed_end(s: Seq<char>) -> Seq<char>
    decreases s.len(),
{
    if s.len() > 0 && whitespace(s.last()) {
        trimmed_end(s.drop_last())
    } else {
        s
    }
}

/// `s` without its leading and trailing whitespace.
pub open spec fn trimmed(s: Seq<char>) -> Seq<char> {
    trimmed_end(trimmed_start(s))
}

/// The string `s` without leading and trailing whitespace.
pub fn trim(s: &str) -> (r: String)
    ensures
        r@ == trimmed(s@),
{
    let cs = chars_of(s);
    let mut from: usize = 0;
    assert(cs@.skip(0) =~= cs@);
    while from < cs.len() && is_whitespace(cs[from])
        invariant
            from <= cs@.len(),
            trimmed_start(cs@) == trimmed_start(cs@.skip(from as int)),
        decreases cs.len() - from,
    {
        assert(cs@.skip(from as int).skip(1) =~= cs@.skip(from + 1));
        from = from + 1;
    }
    let ghost t = cs@.skip(from as int);
    assert(trimmed_start(cs@) == t);
    let mut to: usize = cs.len();
    assert(cs@.subrange(from as int, to as int) =~= t);
    while from < to && is_whitespace(cs[to - 1])
        invariant
            from <= to <= cs@.len(),
            trimmed_end(t) == trimmed_end(cs@.subrange(from as int, to as int)),
        decreases to - from,
    {
        assert(cs@.subrange(from as int, to as int).drop_last() =~= cs@.subrange(
            from as int,
            to - 1,
        ));
        to = to - 1;
    }
    string_of(&cs, from, to)
}

/// What separates the fields that [`fields`] cuts a text into.
#[derive(Clone, Copy, PartialEq, Eq, Structural)]
pub enum Separator {
    /// Runs of whitespace.
    Whitespace,
    /// Whitespace and the operators that separate shell commands.
    Shell,
    /// The path separator.
    Slash,
}

impl Separator {
    /// Whether `c` separates fields.
    pub open spec fn matches(self, c: char) -> bool {
        match self {
            Separator::Whitespace => whitespace(c),
            Separator::Shell => whitespace(c) || c == '|' || c == ';' || c == '&' || c == '(' || c
                == ')',
            Separator::Slash => c == '/',
        }
    }

    pub fn is_separator(self, c: char) -> (r: bool)
        ensures
            r == self.matches(c),
    {
        match self {
            Separator::Whitespace => is_whitespace(c),
            Separator::Shell => is_whitespace(c) || c == '|' || c == ';' || c == '&' || c == '('
                || c == ')',
            Separator::Slash => c == '/',
        }
    }
}

/// How many characters of `s` come before its first separator.
pub open spec fn field_len(sep: Separator, s: Seq<char>) -> nat
    decreases s.len(),
{
    if s.len() == 0 || sep.matches(s[0]) {
        0
    } else {
        1 + field_len(sep, s.skip(1))
    }
}

pub proof fn lemma_field_len(sep: Separator, s: Seq<char>)
    ensures
        field_len(sep, s) <= s.len(),
        forall|i: int| 0 <= i < field_len(sep, s) ==> !sep.matches(#[trigger] s[i]),
        field_len(sep, s) < s.len() ==> sep.matches(s[field_len(sep, s) as int]),
    decreases s.len(),
{
    if s.len() > 0 && !sep.matches(s[0]) {
        lemma_field_len(sep, s.skip(1));
        assert forall|i: int| 0 <= i < field_len(sep, s) implies !sep.matches(#[trigger] s[i]) by {
            if i > 0 {
                assert(s[i] == s.skip(1)[i - 1]);
            }
        }
    }
}

/// The maximal non-empty runs of characters of `s` that are no separators, in order.
pub open spec fn fields(sep: Separator, s: Seq<char>) -> Seq<Seq<char>>
    decreases s.len(),
{
    if s.len() == 0 {
        seq![]
    } else if sep.matches(s[0]) {
        fields(sep, s.skip(1))
    } else {
        let n = field_len(sep, s);
        if 0 < n <= s.len() {
            seq![s.take(n as int)] + fields(sep, s.skip(n as int))
        } else {
            seq![]
        }
    }
}

/// The words of `s`: its fields between whitespace.
pub open spec fn words(s: Seq<char>) -> Seq<Seq<char>> {
    fields(Separator::Whitespace, s)
}

/// Cuts `s` into its non-empty fields.
pub fn split_fields(sep: Separator, s: &str) -> (r: Vec<String>)
    ensures
        r.deep_view() == fields(sep, s@),
{
    let cs = chars_of(s);
    let mut out: Vec<String> = Vec::new();
    let mut i: usize = 0;
    assert(cs@.skip(0) =~= cs@);
    assert(out.deep_view() =~= seq![]);
    assert(out.deep_view() + fields(sep, cs@) =~= fields(sep, cs@));
    while i < cs.len()
        invariant
            i <= cs@.len(),
            out.deep_view() + fields(sep, cs@.skip(i as int)) == fields(sep, cs@),
        decreases cs.len() - i,
    {
        let ghost rest = cs@.skip(i as int);
        if sep.is_separator(cs[i]) {
            assert(rest.skip(1) =~= cs@.skip(i + 1));
            i = i + 1;
        } else {
            let start: usize = i;
            assert(rest.skip(0) =~= rest);
            while i < cs.len() && !sep.is_separator(cs[i])
                invariant
                    start <= i <= cs@.len(),
                    rest == cs@.skip(start as int),
                    field_len(sep, rest) == (i - start) + field_len(sep, cs@.skip(i as int)),
                decreases cs.len() - i,
            {
                assert(cs@.skip(i as int).skip(1) =~= cs@.skip(i + 1));
                i = i + 1;
            }
            assert(field_len(sep, rest) == i - start);
            let field = string_of(&cs, start, i);
            assert(field@ =~= rest.take(i - start));
            assert(rest.skip(i - start) =~= cs@.skip(i as int));
            let ghost before = out.deep_view();
            out.push(field);
            assert(out.deep_view() =~= before.push(field@));
            assert(before + (seq![field@] + fields(sep, cs@.skip(i as int))) =~= before.push(
                field@,
            ) + fields(sep, cs@.skip(i as int)));
        }
    }
    assert(cs@.skip(i as int) =~= seq![]);
    assert(out.deep_view() + fields(sep, cs@.skip(i as int)) =~= out.deep_view());
    out
}

/// The words of `s`.
pub fn split_whitespace(s: &str) -> (r: Vec<String>)
    ensures
        r.deep_view() == words(s@),
{
    split_fields(Separator::Whitespace, s)
}

// ---------------------------------------------------------------------------------------------
// Lines
// ---------------------------------------------------------------------------------------------

/// The first position of `c` in `s`, or the length of `s` when it does not occur.
pub open spec fn find_char(s: Seq<char>, c: char) -> nat
    decreases s.len(),
{
    if s.len() == 0 || s[0] == c {
        0
    } else {
        1 + find_char(s.skip(1), c)
    }
}

pub proof fn lemma_find_char(s: Seq<char>, c: char)
    ensures
        find_char(s, c) <= s.len(),
        forall|i: int| 0 <= i < find_char(s, c) ==> #[trigger] s[i] != c,
        find_char(s, c) < s.len() ==> s[find_char(s, c) as int] == c,
    decreases s.len(),
{
    if s.len() > 0 && s[0] != c {
        lemma_find_char(s.skip(1), c);
        assert forall|i: int| 0 <= i < find_char(s, c) implies #[trigger] s[i] != c by {
            if i > 0 {
                assert(s[i] == s.skip(1)[i - 1]);
            }
        }
    }
}

/// The position of the first `c` in `cs[from..]`, or the length of `cs`.
pub fn position_of(cs: &Vec<char>, from: usize, c: char) -> (r: usize)
    requires
        from <= cs@.len(),
    ensures
        from <= r <= cs@.len(),
        r == from + find_char(cs@.skip(from as int), c),
{
    let mut i: usize = from;
    while i < cs.len() && cs[i] != c
        invariant
            from <= i <= cs@.len(),
            find_char(cs@.skip(from as int), c) == (i - from) + find_char(cs@.skip(i as int), c),
        decreases cs.len() - i,
    {
        assert(cs@.skip(i as int).skip(1) =~= cs@.skip(i + 1));
        i = i + 1;
    }
    i
}

/// A line that a line feed ended, without the carriage return before that line feed.
pub open spec fn without_carriage_return(s: Seq<char>) -> Seq<char> {
    if s.len() > 0 && s.last() == '\r' {
        s.drop_last()
    } else {
        s
    }
}

/// The lines of `s`: what stands between its line feeds, each without the carriage return before
/// its line feed. Nothing after the last line feed is no line.
pub open spec fn lines_of(s: Seq<char>) -> Seq<Seq<char>>
    decreases s.len(),
{
    if s.len() == 0 {
        seq![]
    } else {
        let n = find_char(s, '\n');
        if n < s.len() {
            seq![without_carriage_return(s.take(n as int))] + lines_of(s.skip(n as int + 1))
        } else {
            seq![s]
        }
    }
}

/// The lines of `s`.
pub fn lines(s: &str) -> (r: Vec<String>)
    ensures
        r.deep_view() == lines_of(s@),
{
    let cs = chars_of(s);
    let mut out: Vec<String> = Vec::new();
    let mut i: usize = 0;
    assert(cs@.skip(0) =~= cs@);
    assert(out.deep_view() + lines_of(cs@) =~= lines_of(cs@));
    while i < cs.len()
        invariant
            i <= cs@.len(),
            out.deep_view() + lines_of(cs@.skip(i as int)) == lines_of(cs@),
        decreases cs.len() - i,
    {
        let ghost rest = cs@.skip(i as int);
        let ghost before = out.deep_view();
        let end: usize = position_of(&cs, i, '\n');
        proof {
            lemma_find_char(rest, '\n');
        }
        if end < cs.len() {
            let stop: usize = if i < end && cs[end - 1] == '\r' {
                end - 1
            } else {
                end
            };
            let line = string_of(&cs, i, stop);
            assert(rest.take(end - i) =~= cs@.subrange(i as int, end as int));
            assert(line@ =~= without_carriage_return(rest.take(end - i)));
            assert(rest.skip(end - i + 1) =~= cs@.skip(end + 1));
            out.push(line);
            assert(out.deep_view() =~= before.push(line@));
            assert(before + (seq![line@] + lines_of(cs@.skip(end + 1))) =~= before.push(line@)
                + lines_of(cs@.skip(end + 1)));
            i = end + 1;
        } else {
            let line = string_of(&cs, i, end);
            assert(line@ =~= rest);
            out.push(line);
            assert(out.deep_view() =~= before.push(line@));
            assert(before + seq![line@] =~= before.push(line@));
            i = end;
            assert(cs@.skip(i as int) =~= seq![]);
            assert(out.deep_view() + lines_of(cs@.skip(i as int)) =~= out.deep_view());
        }
    }
    assert(cs@.skip(i as int) =~= seq![]);
    assert(out.deep_view() + lines_of(cs@.skip(i as int)) =~= out.deep_view());
    out
}

// ---------------------------------------------------------------------------------------------
// Prefixes, suffixes and the first occurrence of a character
// ---------------------------------------------------------------------------------------------

/// Whether `s` begins with `prefix`.
pub fn starts_with(s: &str, prefix: &str) -> (r: bool)
    ensures
        r == prefix@.is_prefix_of(s@),
{
    let a = chars_of(s);
    let b = chars_of(prefix);
    if b.len() > a.len() {
        return false;
    }
    let mut i: usize = 0;
    while i < b.len()
        invariant
            i <= b@.len() <= a@.len(),
            a@ == s@,
            b@ == prefix@,
            a@.take(i as int) == b@.take(i as int),
        decreases b.len() - i,
    {
        if a[i] != b[i] {
            assert(a@[i as int] != b@[i as int]);
            assert(!(b@ =~= a@.subrange(0, b@.len() as int)));
            return false;
        }
        assert(a@.take(i + 1) =~= a@.take(i as int).push(a@[i as int]));
        assert(b@.take(i + 1) =~= b@.take(i as int).push(b@[i as int]));
        i = i + 1;
    }
    assert(b@.take(i as int) =~= b@);
    assert(b@ =~= a@.subrange(0, b@.len() as int));
    true
}

/// What follows `prefix` in `s`, if `s` begins with it.
pub open spec fn stripped_prefix(s: Seq<char>, prefix: Seq<char>) -> Option<Seq<char>> {
    if prefix.is_prefix_of(s) {
        Some(s.skip(prefix.len() as int))
    } else {
        None
    }
}

/// What follows `prefix` in `s`, if `s` begins with it.
pub fn strip_prefix(s: &str, prefix: &str) -> (r: Option<String>)
    ensures
        r.deep_view() == stripped_prefix(s@, prefix@),
{
    if !starts_with(s, prefix) {
        return None;
    }
    let cs = chars_of(s);
    let n: usize = chars_of(prefix).len();
    let rest = string_of(&cs, n, cs.len());
    assert(rest@ =~= s@.skip(n as int));
    Some(rest)
}

/// What follows the first `c` of `s`, if it has one.
pub open spec fn after_first(s: Seq<char>, c: char) -> Option<Seq<char>> {
    if find_char(s, c) < s.len() {
        Some(s.skip(find_char(s, c) as int + 1))
    } else {
        None
    }
}

/// What follows the first `c` of `s`, if it has one.
pub fn after_char(s: &str, c: char) -> (r: Option<String>)
    ensures
        r.deep_view() == after_first(s@, c),
{
    let cs = chars_of(s);
    assert(cs@.skip(0) =~= cs@);
    let at: usize = position_of(&cs, 0, c);
    if at == cs.len() {
        return None;
    }
    let rest = string_of(&cs, at + 1, cs.len());
    assert(rest@ =~= s@.skip(at + 1));
    Some(rest)
}

// ---------------------------------------------------------------------------------------------
// Joining and replacing
// ---------------------------------------------------------------------------------------------

/// The elements of `list` with `sep` between each two.
pub open spec fn joined(list: Seq<Seq<char>>, sep: Seq<char>) -> Seq<char>
    decreases list.len(),
{
    if list.len() == 0 {
        seq![]
    } else if list.len() == 1 {
        list[0]
    } else {
        joined(list.drop_last(), sep) + sep + list.last()
    }
}

/// The strings of `list` with `sep` between each two.
pub fn join(list: &Vec<String>, sep: &str) -> (r: String)
    ensures
        r@ == joined(list.deep_view(), sep@),
{
    let ghost all = list.deep_view();
    let mut out = String::new();
    let mut i: usize = 0;
    assert(all.take(0) =~= seq![]);
    while i < list.len()
        invariant
            i <= list@.len(),
            all == list.deep_view(),
            out@ == joined(all.take(i as int), sep@),
        decreases list.len() - i,
    {
        if i > 0 {
            out.append(sep);
        }
        out.append(list[i].as_str());
        assert(all.take(i + 1).drop_last() =~= all.take(i as int));
        assert(all.take(i + 1).last() == list[i as int]@);
        if i == 0 {
            assert(out@ =~= list[0]@);
        }
        i = i + 1;
    }
    assert(all.take(i as int) =~= all);
    out
}

/// `s` with every occurrence of `from` replaced by `to`: occurrences are taken from the left and
/// do not overlap.
pub open spec fn replaced(s: Seq<char>, from: Seq<char>, to: Seq<char>) -> Seq<char>
    recommends
        from.len() > 0,
    decreases s.len(),
{
    if s.len() == 0 || from.len() == 0 {
        s
    } else if from.is_prefix_of(s) {
        to + replaced(s.skip(from.len() as int), from, to)
    } else {
        seq![s[0]] + replaced(s.skip(1), from, to)
    }
}

/// Whether `part` stands in `cs` at position `at`.
fn occurs_at(cs: &Vec<char>, at: usize, part: &Vec<char>) -> (r: bool)
    requires
        at <= cs@.len(),
    ensures
        r == part@.is_prefix_of(cs@.skip(at as int)),
{
    let ghost rest = cs@.skip(at as int);
    if part.len() > cs.len() - at {
        return false;
    }
    let total: usize = cs.len();
    let mut i: usize = 0;
    while i < part.len()
        invariant
            at <= total == cs@.len(),
            i <= part@.len() <= total - at,
            rest == cs@.skip(at as int),
            forall|j: int| 0 <= j < i ==> part@[j] == rest[j],
        decreases part.len() - i,
    {
        if cs[at + i] != part[i] {
            assert(rest[i as int] != part@[i as int]);
            return false;
        }
        i = i + 1;
    }
    assert(part@ =~= rest.subrange(0, part@.len() as int));
    true
}

/// `s` with every occurrence of `from` replaced by `to`.
pub fn replace(s: &str, from: &str, to: &str) -> (r: String)
    requires
        from@.len() > 0,
    ensures
        r@ == replaced(s@, from@, to@),
{
    let cs = chars_of(s);
    let part = chars_of(from);
    let mut out = String::new();
    let mut i: usize = 0;
    assert(cs@.skip(0) =~= cs@);
    assert(out@ + replaced(s@, from@, to@) =~= replaced(s@, from@, to@));
    while i < cs.len()
        invariant
            i <= cs@.len(),
            cs@ == s@,
            part@ == from@,
            from@.len() > 0,
            out@ + replaced(cs@.skip(i as int), from@, to@) == replaced(s@, from@, to@),
        decreases cs.len() - i,
    {
        let ghost rest = cs@.skip(i as int);
        let ghost before = out@;
        if occurs_at(&cs, i, &part) {
            out.append(to);
            assert(rest.skip(from@.len() as int) =~= cs@.skip(i + from@.len()));
            i = i + part.len();
            assert(before + (to@ + replaced(cs@.skip(i as int), from@, to@)) =~= out@ + replaced(
                cs@.skip(i as int),
                from@,
                to@,
            ));
        } else {
            out.push(cs[i]);
            assert(rest.skip(1) =~= cs@.skip(i + 1));
            assert(before + (seq![rest[0]] + replaced(cs@.skip(i + 1), from@, to@)) =~= out@
                + replaced(cs@.skip(i + 1), from@, to@));
            i = i + 1;
        }
    }
    assert(cs@.skip(i as int) =~= seq![]);
    assert(out@ + replaced(cs@.skip(i as int), from@, to@) =~= out@);
    out
}

// ---------------------------------------------------------------------------------------------
// Texts that may be missing
// ---------------------------------------------------------------------------------------------

/// The view of a text that may be missing.
pub open spec fn text_of(text: Option<&str>) -> Option<Seq<char>> {
    match text {
        Some(t) => Some(t@),
        None => None,
    }
}

/// A copy of a text that may be missing.
pub fn clone_text(text: &Option<String>) -> (r: Option<String>)
    ensures
        r.deep_view() == text.deep_view(),
{
    match text {
        Some(t) => Some(t.clone()),
        None => None,
    }
}

/// A text that may be missing, as an owned one.
pub fn owned_text(text: Option<&str>) -> (r: Option<String>)
    ensures
        r.deep_view() == text_of(text),
{
    match text {
        Some(t) => Some(t.to_owned()),
        None => None,
    }
}

/// A text that may be missing, as a borrowed one.
pub fn borrowed_text(text: &Option<String>) -> (r: Option<&str>)
    ensures
        text_of(r) == text.deep_view(),
{
    match text {
        Some(t) => Some(t.as_str()),
        None => None,
    }
}

// ---------------------------------------------------------------------------------------------
// Laws
// ---------------------------------------------------------------------------------------------

/// Of the characters of ASCII, whitespace is the space and the control characters from the tab to the
/// carriage return. A no-break space and the wider spaces of Unicode are whitespace, too.
pub proof fn law_ascii_whitespace(c: char)
    ensures
        (c as u32) < 128 ==> (whitespace(c) <==> c == ' ' || 9 <= (c as u32) <= 13),
        whitespace('\u{a0}') && whitespace('\u{2003}') && whitespace('\u{3000}'),
        !whitespace('\u{200b}') && !whitespace('\u{feff}'),
{
}

/// Trimming takes whitespace from both ends of a text and nothing else: what is left neither begins
/// nor ends with any.
pub proof fn law_trimming_takes_whitespace_only(s: Seq<char>)
    ensures
        exists|a: int, b: int|
            0 <= a <= b <= s.len() && trimmed(s) == #[trigger] s.subrange(a, b) && (forall|i: int|
                0 <= i < a || b <= i < s.len() ==> whitespace(#[trigger] s[i])),
        trimmed(s).len() > 0 ==> !whitespace(trimmed(s)[0]) && !whitespace(trimmed(s).last()),
{
    lemma_trimmed_start(s);
    let a = s.len() - trimmed_start(s).len();
    let t = trimmed_start(s);
    lemma_trimmed_end(t);
    let b = a + trimmed_end(t).len();
    assert(s.subrange(a, b) =~= trimmed_end(t));
    assert forall|i: int| 0 <= i < a || b <= i < s.len() implies whitespace(#[trigger] s[i]) by {
        if i >= b {
            assert(s[i] == t[i - a]);
        }
    }
    if trimmed(s).len() > 0 {
        assert(trimmed(s)[0] == t[0]);
    }
}

proof fn lemma_trimmed_start(s: Seq<char>)
    ensures
        trimmed_start(s).len() <= s.len(),
        trimmed_start(s) == s.skip(s.len() - trimmed_start(s).len()),
        forall|i: int| 0 <= i < s.len() - trimmed_start(s).len() ==> whitespace(#[trigger] s[i]),
        trimmed_start(s).len() > 0 ==> !whitespace(trimmed_start(s)[0]),
    decreases s.len(),
{
    if s.len() > 0 && whitespace(s[0]) {
        let rest = s.skip(1);
        lemma_trimmed_start(rest);
        assert forall|i: int| 0 <= i < s.len() - trimmed_start(s).len() implies whitespace(
            #[trigger] s[i],
        ) by {
            if i > 0 {
                assert(rest[i - 1] == s[i]);
            }
        }
        assert(s.skip(s.len() - trimmed_start(s).len()) =~= rest.skip(
            rest.len() - trimmed_start(s).len(),
        ));
    } else {
        assert(s.skip(0) =~= s);
    }
}

proof fn lemma_trimmed_end(s: Seq<char>)
    ensures
        trimmed_end(s).len() <= s.len(),
        trimmed_end(s) == s.take(trimmed_end(s).len() as int),
        forall|i: int| trimmed_end(s).len() <= i < s.len() ==> whitespace(#[trigger] s[i]),
        trimmed_end(s).len() > 0 ==> !whitespace(trimmed_end(s).last()),
    decreases s.len(),
{
    if s.len() > 0 && whitespace(s.last()) {
        let rest = s.drop_last();
        lemma_trimmed_end(rest);
        assert forall|i: int| trimmed_end(s).len() <= i < s.len() implies whitespace(
            #[trigger] s[i],
        ) by {
            if i < s.len() - 1 {
                assert(rest[i] == s[i]);
            }
        }
        assert(s.take(trimmed_end(s).len() as int) =~= rest.take(trimmed_end(s).len() as int));
    } else {
        assert(s.take(s.len() as int) =~= s);
    }
}

/// A separator cuts a text in two whose fields come one after the other, and a text without a
/// separator is one field, unless it is empty.
pub proof fn law_fields_are_cut_at_separators(sep: Separator, a: Seq<char>, c: char, b: Seq<char>)
    requires
        sep.matches(c),
    ensures
        fields(sep, a + seq![c] + b) == fields(sep, a) + fields(sep, b),
        a.len() > 0 && (forall|i: int| 0 <= i < a.len() ==> !sep.matches(#[trigger] a[i]))
            ==> fields(sep, a) == seq![a],
        fields(sep, Seq::empty()).len() == 0,
    decreases a.len(),
{
    let s = a + seq![c] + b;
    if a.len() == 0 {
        assert(s[0] == c);
        assert(s.skip(1) =~= b);
        assert(fields(sep, a) + fields(sep, b) =~= fields(sep, b));
    } else if sep.matches(a[0]) {
        assert(s[0] == a[0]);
        assert(s.skip(1) =~= a.skip(1) + seq![c] + b);
        law_fields_are_cut_at_separators(sep, a.skip(1), c, b);
    } else {
        assert(s[0] == a[0]);
        lemma_field_len(sep, a);
        lemma_field_len(sep, s);
        let n = field_len(sep, a);
        let m = field_len(sep, s);
        if m < n {
            assert(s[m as int] == a[m as int]);
        }
        if n < m {
            if n < a.len() {
                assert(s[n as int] == a[n as int]);
            } else {
                assert(s[n as int] == c);
            }
        }
        assert(m == n);
        assert(s.take(n as int) =~= a.take(n as int));
        assert(s.skip(n as int) =~= a.skip(n as int) + seq![c] + b);
        law_fields_are_cut_at_separators(sep, a.skip(n as int), c, b);
        assert(seq![a.take(n as int)] + (fields(sep, a.skip(n as int)) + fields(sep, b)) =~= (seq![
            a.take(n as int),
        ] + fields(sep, a.skip(n as int))) + fields(sep, b));
        if forall|i: int| 0 <= i < a.len() ==> !sep.matches(#[trigger] a[i]) {
            assert(n == a.len());
            assert(a.take(n as int) =~= a);
            assert(a.skip(n as int) =~= Seq::<char>::empty());
            assert(fields(sep, a) =~= seq![a]);
        }
    }
}

/// Words are separated by whitespace, parts of paths by slashes, and the words of shell commands by
/// whitespace and by the operators that join commands.
pub proof fn law_what_separates_fields(c: char, s: Seq<char>)
    ensures
        Separator::Whitespace.matches(c) <==> whitespace(c),
        Separator::Slash.matches(c) <==> c == '/',
        Separator::Shell.matches(c) <==> whitespace(c) || "|;&()"@.contains(c),
        words(s) == fields(Separator::Whitespace, s),
{
    reveal_strlit("|;&()");
    let ops = "|;&()"@;
    assert(ops =~= seq!['|', ';', '&', '(', ')']);
    assert(ops[0] == '|' && ops[1] == ';' && ops[2] == '&' && ops[3] == '(' && ops[4] == ')');
}

/// A line ends at a line feed, which is no part of it, nor is a carriage return before it. What
/// follows the last line feed is a line, unless there is nothing.
pub proof fn law_lines_end_at_line_feeds(a: Seq<char>, b: Seq<char>)
    requires
        forall|i: int| 0 <= i < a.len() ==> #[trigger] a[i] != '\n',
    ensures
        a.len() == 0 || a.last() != '\r' ==> lines_of(a + seq!['\n'] + b) == seq![a] + lines_of(b),
        lines_of(a + seq!['\r', '\n'] + b) == seq![a] + lines_of(b),
        a.len() > 0 ==> lines_of(a) == seq![a],
        lines_of(Seq::empty()).len() == 0,
{
    let s = a + seq!['\n'] + b;
    lemma_find_char(s, '\n');
    assert(s[a.len() as int] == '\n');
    if find_char(s, '\n') < a.len() {
        assert(s[find_char(s, '\n') as int] == a[find_char(s, '\n') as int]);
    }
    assert(find_char(s, '\n') == a.len());
    assert(s.take(a.len() as int) =~= a);
    assert(s.skip(a.len() as int + 1) =~= b);
    let t = a + seq!['\r', '\n'] + b;
    lemma_find_char(t, '\n');
    assert(t[a.len() as int] == '\r');
    assert(t[a.len() as int + 1] == '\n');
    if find_char(t, '\n') < a.len() {
        assert(t[find_char(t, '\n') as int] == a[find_char(t, '\n') as int]);
    }
    assert(find_char(t, '\n') == a.len() + 1);
    assert(t.take(a.len() as int + 1) =~= a.push('\r'));
    assert(a.push('\r').drop_last() =~= a);
    assert(t.skip(a.len() as int + 2) =~= b);
    if a.len() > 0 {
        lemma_find_char(a, '\n');
    }
}

/// What follows a prefix is what it was put before; a text that does not begin with it has none.
pub proof fn law_prefix_is_stripped(prefix: Seq<char>, rest: Seq<char>, s: Seq<char>)
    ensures
        stripped_prefix(prefix + rest, prefix) == Some(rest),
        stripped_prefix(s, prefix) matches Some(after) ==> s == prefix + after,
{
    let whole = prefix + rest;
    assert(whole.subrange(0, prefix.len() as int) =~= prefix);
    assert(whole.skip(prefix.len() as int) =~= rest);
    if stripped_prefix(s, prefix) is Some {
        assert(s =~= s.subrange(0, prefix.len() as int) + s.skip(prefix.len() as int));
    }
}

/// What follows the first occurrence of a character comes right after it.
pub proof fn law_text_after_a_character(a: Seq<char>, c: char, b: Seq<char>)
    requires
        forall|i: int| 0 <= i < a.len() ==> #[trigger] a[i] != c,
    ensures
        after_first(a + seq![c] + b, c) == Some(b),
        after_first(a, c) is None,
{
    let s = a + seq![c] + b;
    lemma_find_char(s, c);
    lemma_find_char(a, c);
    assert(s[a.len() as int] == c);
    if find_char(s, c) < a.len() {
        assert(s[find_char(s, c) as int] == a[find_char(s, c) as int]);
    }
    assert(s.skip(a.len() as int + 1) =~= b);
}

/// Joining puts the separator between what two lists are joined to.
pub proof fn law_joining_puts_separators_between(
    a: Seq<Seq<char>>,
    b: Seq<Seq<char>>,
    sep: Seq<char>,
    x: Seq<char>,
)
    ensures
        joined(Seq::empty(), sep) == Seq::<char>::empty(),
        joined(seq![x], sep) == x,
        a.len() > 0 && b.len() > 0 ==> joined(a + b, sep) == joined(a, sep) + sep + joined(b, sep),
    decreases b.len(),
{
    if a.len() > 0 && b.len() > 0 {
        assert((a + b).drop_last() =~= a + b.drop_last());
        if b.len() == 1 {
            assert(a + b.drop_last() =~= a);
        } else {
            law_joining_puts_separators_between(a, b.drop_last(), sep, x);
            assert((joined(a, sep) + sep + joined(b.drop_last(), sep)) + sep + b.last() =~= joined(
                a,
                sep,
            ) + sep + (joined(b.drop_last(), sep) + sep + b.last()));
        }
    }
}

/// The first occurrence of what is replaced gives way to the replacement; what stands before it stays,
/// and what follows it is treated alike. A text in which it does not occur stays as it is.
pub proof fn law_each_occurrence_is_replaced(
    a: Seq<char>,
    from: Seq<char>,
    b: Seq<char>,
    to: Seq<char>,
)
    requires
        from.len() > 0,
        forall|i: int|
            0 <= i < a.len() ==> !from.is_prefix_of(#[trigger] (a + from + b).skip(i)),
    ensures
        replaced(a + from + b, from, to) == a + to + replaced(b, from, to),
    decreases a.len(),
{
    let s = a + from + b;
    if a.len() == 0 {
        assert(s =~= from + b);
        assert(s.subrange(0, from.len() as int) =~= from);
        assert(s.skip(from.len() as int) =~= b);
        assert(a + to + replaced(b, from, to) =~= to + replaced(b, from, to));
    } else {
        assert(s.skip(0) =~= s);
        assert(!from.is_prefix_of(s.skip(0)));
        let rest = a.skip(1);
        assert(s.skip(1) =~= rest + from + b);
        assert forall|i: int| 0 <= i < rest.len() implies !from.is_prefix_of(
            #[trigger] (rest + from + b).skip(i),
        ) by {
            assert((rest + from + b).skip(i) =~= s.skip(i + 1));
        }
        law_each_occurrence_is_replaced(rest, from, b, to);
        assert(seq![s[0]] + (rest + to + replaced(b, from, to)) =~= a + to + replaced(b, from, to));
    }
}

/// A text in which what is replaced does not occur stays as it is.
pub proof fn law_nothing_else_is_replaced(s: Seq<char>, from: Seq<char>, to: Seq<char>)
    requires
        from.len() > 0,
        forall|i: int| 0 <= i < s.len() ==> !from.is_prefix_of(#[trigger] s.skip(i)),
    ensures
        replaced(s, from, to) == s,
    decreases s.len(),
{
    if s.len() > 0 {
        assert(s.skip(0) =~= s);
        assert(!from.is_prefix_of(s.skip(0)));
        let rest = s.skip(1);
        assert forall|i: int| 0 <= i < rest.len() implies !from.is_prefix_of(
            #[trigger] rest.skip(i),
        ) by {
            assert(rest.skip(i) =~= s.skip(i + 1));
        }
        law_nothing_else_is_replaced(rest, from, to);
        assert(seq![s[0]] + rest =~= s);
    }
}

} // verus!
