//! Showing the modes of a shell session.
use vstd::prelude::*;

use crate::runner_mode::RunnerMode;
use crate::text::join;

verus! {

/// The names by which modes are shown.
pub open spec fn titles(modes: Seq<RunnerMode>) -> Seq<Seq<char>> {
    Seq::new(modes.len(), |i: int| modes[i].title())
}

/// The line that shows the modes of the shell session.
pub fn run(modes: &Vec<RunnerMode>) -> (r: String)
    ensures
        r@ == (if modes@.len() == 0 {
            "No mode set for this shell session"@
        } else {
            crate::text::joined(titles(modes@), ", "@)
        }),
{
    if modes.len() == 0 {
        return "No mode set for this shell session".to_owned();
    }
    let mut names: Vec<String> = Vec::new();
    let mut i: usize = 0;
    while i < modes.len()
        invariant
            i <= modes@.len(),
            names@.len() == i,
            forall|j: int| 0 <= j < i ==> (#[trigger] names@[j])@ == modes@[j].title(),
        decreases modes.len() - i,
    {
        names.push(modes[i].label().to_owned());
        i = i + 1;
    }
    assert(names.deep_view() =~= titles(modes@));
    join(&names, ", ")
}

/// The modes are shown by their names, one after the other with a comma between them.
pub proof fn law_modes_are_shown(modes: &Vec<RunnerMode>, r: String, first: RunnerMode, rest: Seq<RunnerMode>)
    requires
        call_ensures(run, (modes,), r),
    ensures
        modes@.len() == 0 ==> r@ == "No mode set for this shell session"@,
        modes@ == seq![first] ==> r@ == first.title(),
        modes@ == seq![first] + rest && rest.len() > 0 ==> r@ == first.title() + ", "@
            + crate::text::joined(titles(rest), ", "@),
{
    if modes@ == seq![first] {
        assert(titles(modes@) =~= seq![first.title()]);
        crate::text::law_joining_puts_separators_between(
            seq![first.title()],
            Seq::empty(),
            ", "@,
            first.title(),
        );
    }
    if modes@ == seq![first] + rest && rest.len() > 0 {
        assert(titles(modes@) =~= seq![first.title()] + titles(rest));
        crate::text::law_joining_puts_separators_between(
            seq![first.title()],
            titles(rest),
            ", "@,
            first.title(),
        );
    }
}

} // verus!
