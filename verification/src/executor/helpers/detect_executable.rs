//! Which programs a command runs.
use vstd::prelude::*;

use crate::path::file_name;
use crate::text::{split_fields, str_eq, Separator};

verus! {

/// Whether one of the tokens of a command is one of the programs, by the last component of its
/// path. Tokens are separated by whitespace and by the operators of the shell.
pub open spec fn has_executable(command: Seq<char>, names: Seq<&str>) -> bool {
    exists|i: int, j: int|
        0 <= i < crate::text::fields(Separator::Shell, command).len() && 0 <= j < names.len()
            && crate::path::file_name_of(
            #[trigger] crate::text::fields(Separator::Shell, command)[i],
        ) == Some((#[trigger] names[j])@)
}

/// Whether a command runs one of the programs of these names. A name matches as a whole, so
/// `javascript` is not `java`.
pub fn command_has_executable(command: &str, names: &[&str]) -> (r: bool)
    ensures
        r == has_executable(command@, names@),
{
    let tokens = split_fields(Separator::Shell, command);
    let ghost all = tokens.deep_view();
    let mut i: usize = 0;
    while i < tokens.len()
        invariant
            all == tokens.deep_view(),
            all == crate::text::fields(Separator::Shell, command@),
            i <= tokens@.len(),
            forall|k: int, j: int|
                0 <= k < i && 0 <= j < names@.len() ==> crate::path::file_name_of(#[trigger] all[k])
                    != Some((#[trigger] names@[j])@),
        decreases tokens.len() - i,
    {
        assert(all[i as int] == tokens@[i as int]@);
        if let Some(name) = file_name(tokens[i].as_str()) {
            let mut j: usize = 0;
            while j < names.len()
                invariant
                    all == crate::text::fields(Separator::Shell, command@),
                    i < all.len(),
                    crate::path::file_name_of(all[i as int]) == Some(name@),
                    j <= names@.len(),
                    forall|l: int| 0 <= l < j ==> name@ != (#[trigger] names@[l])@,
                decreases names.len() - j,
            {
                if str_eq(name.as_str(), names[j]) {
                    assert(crate::path::file_name_of(all[i as int]) == Some(names@[j as int]@));
                    return true;
                }
                j = j + 1;
            }
        }
        i = i + 1;
    }
    false
}

/// A command runs a program if a word of it is the name of the program or a path that ends with that
/// name, wherever in the command it stands between separators.
pub proof fn law_program_is_found_in_a_command(
    command: &str,
    names: &[&str],
    r: bool,
    before: Seq<char>,
    start: char,
    dir: Seq<char>,
    end: char,
    after: Seq<char>,
    j: int,
)
    requires
        call_ensures(command_has_executable, (command, names), r),
        0 <= j < names@.len(),
        crate::path::is_plain_name(names@[j]@),
        Separator::Shell.matches(start),
        Separator::Shell.matches(end),
        forall|i: int|
            0 <= i < crate::path::joined_path(dir, names@[j]@).len() ==> !Separator::Shell.matches(
                #[trigger] crate::path::joined_path(dir, names@[j]@)[i],
            ),
        ({
            let word = crate::path::joined_path(dir, names@[j]@);
            ||| command@ == before + seq![start] + (word + seq![end] + after)
            ||| command@ == before + seq![start] + word
            ||| command@ == word + seq![end] + after
            ||| command@ == word
        }),
    ensures
        r,
{
    let word = crate::path::joined_path(dir, names@[j]@);
    let sep = Separator::Shell;
    crate::path::law_file_has_its_name(dir, names@[j]@);
    assert(word.len() > 0);
    crate::text::law_fields_are_cut_at_separators(sep, word, end, after);
    crate::text::law_fields_are_cut_at_separators(sep, before, start, word + seq![end] + after);
    crate::text::law_fields_are_cut_at_separators(sep, before, start, word);
    let all = crate::text::fields(sep, command@);
    let first = crate::text::fields(sep, before);
    if command@ == word || command@ == word + seq![end] + after {
        assert(all[0] == word);
    } else {
        assert(all[first.len() as int] == word);
    }
}

/// A command that runs none of the programs has no word that is the name of one or ends with it.
pub proof fn law_only_whole_names_are_found(command: &str, names: &[&str], r: bool, i: int, j: int)
    requires
        call_ensures(command_has_executable, (command, names), r),
        !r,
        0 <= i < crate::text::fields(Separator::Shell, command@).len(),
        0 <= j < names@.len(),
    ensures
        crate::path::file_name_of(crate::text::fields(Separator::Shell, command@)[i]) != Some(
            names@[j]@,
        ),
        crate::text::fields(Separator::Shell, command@)[i] != names@[j]@
            || !crate::path::is_plain_name(names@[j]@),
{
    let token = crate::text::fields(Separator::Shell, command@)[i];
    assert(crate::path::file_name_of(token) != Some(names@[j]@));
    if token == names@[j]@ && crate::path::is_plain_name(token) {
        crate::path::law_file_has_its_name(Seq::empty(), token);
        crate::path::law_joined_paths_have_one_separator(Seq::empty(), token);
        assert(token[0] != '/');
    }
}

} // verus!
