//! Commands that are put together before they are run.
use vstd::prelude::*;

use crate::text::join;

verus! {

/// A program, its arguments and the directory it is run in.
#[derive(Debug)]
pub struct CommandBuilder {
    program: String,
    argv: Vec<String>,
    cwd: Option<String>,
}

impl CommandBuilder {
    pub closed spec fn program_view(self) -> Seq<char> {
        self.program@
    }

    pub closed spec fn args_view(self) -> Seq<Seq<char>> {
        self.argv.deep_view()
    }

    pub closed spec fn cwd_view(self) -> Option<Seq<char>> {
        self.cwd.deep_view()
    }

    /// The program and its arguments.
    pub open spec fn words(self) -> Seq<Seq<char>> {
        seq![self.program_view()] + self.args_view()
    }

    pub fn new(program: &str) -> (r: Self)
        ensures
            r.program_view() == program@,
            r.args_view() == Seq::<Seq<char>>::empty(),
            r.cwd_view() is None,
    {
        let r = CommandBuilder { program: program.to_owned(), argv: Vec::new(), cwd: None };
        assert(r.args_view() =~= seq![]);
        r
    }

    /// Adds an argument.
    pub fn arg(&mut self, arg: &str)
        ensures
            final(self).program_view() == old(self).program_view(),
            final(self).args_view() == old(self).args_view().push(arg@),
            final(self).cwd_view() == old(self).cwd_view(),
    {
        let ghost before = self.argv;
        self.argv.push(arg.to_owned());
        proof {
            crate::list::lemma_deep_push(before, self.argv@.last(), self.argv);
        }
    }

    /// Adds arguments.
    pub fn args(&mut self, args: &Vec<String>)
        ensures
            final(self).program_view() == old(self).program_view(),
            final(self).args_view() == old(self).args_view() + args.deep_view(),
            final(self).cwd_view() == old(self).cwd_view(),
    {
        let ghost start = *self;
        let ghost all = args.deep_view();
        let mut i: usize = 0;
        assert(start.args_view() + all.take(0) =~= start.args_view());
        while i < args.len()
            invariant
                all == args.deep_view(),
                i <= args@.len(),
                self.program_view() == start.program_view(),
                self.args_view() == start.args_view() + all.take(i as int),
                self.cwd_view() == start.cwd_view(),
            decreases args.len() - i,
        {
            proof {
                crate::list::lemma_take_push(all, i as int);
            }
            self.arg(args[i].as_str());
            assert(self.args_view() =~= start.args_view() + all.take(i + 1));
            i = i + 1;
        }
        assert(all.take(all.len() as int) =~= all);
    }

    /// Sets the directory that the program is run in.
    pub fn current_dir(&mut self, dir: &str)
        ensures
            final(self).program_view() == old(self).program_view(),
            final(self).args_view() == old(self).args_view(),
            final(self).cwd_view() == Some(dir@),
    {
        self.cwd = Some(dir.to_owned());
    }

    /// Runs the command through another, which gets it as the last of its arguments.
    pub fn wrap(&mut self, wrapper: &str, wrapper_args: &Vec<String>)
        ensures
            final(self).program_view() == wrapper@,
            final(self).args_view() == wrapper_args.deep_view() + old(self).words(),
            final(self).cwd_view() == old(self).cwd_view(),
    {
        let mut outer = CommandBuilder::new(wrapper);
        outer.args(wrapper_args);
        assert(outer.args_view() =~= wrapper_args.deep_view());
        self.wrap_with(outer);
    }

    /// Runs the command through another, which gets it as the last of its arguments. The command is
    /// still run in the directory that was set for it.
    pub fn wrap_with(&mut self, wrapper: CommandBuilder)
        ensures
            final(self).program_view() == wrapper.program_view(),
            final(self).args_view() == wrapper.args_view() + old(self).words(),
            final(self).cwd_view() == old(self).cwd_view(),
    {
        let ghost inner = *self;
        let mut outer = wrapper;
        outer.arg(self.program.as_str());
        outer.args(&self.argv);
        assert(outer.args_view() =~= wrapper.args_view() + inner.words());
        self.program = outer.program;
        self.argv = outer.argv;
    }

    /// The program.
    pub fn program(&self) -> (r: &str)
        ensures
            r@ == self.program_view(),
    {
        self.program.as_str()
    }

    /// The arguments.
    pub fn arguments(&self) -> (r: &Vec<String>)
        ensures
            r.deep_view() == self.args_view(),
    {
        &self.argv
    }

    /// The directory that the program is run in, where it is set.
    pub fn directory(&self) -> (r: Option<&str>)
        ensures
            crate::text::text_of(r) == self.cwd_view(),
    {
        match &self.cwd {
            Some(dir) => Some(dir.as_str()),
            None => None,
        }
    }

    /// The program and its arguments in one line, with spaces in between.
    pub fn as_command_line(&self) -> (r: String)
        ensures
            r@ == crate::text::joined(self.words(), seq![' ']),
    {
        let mut words: Vec<String> = Vec::new();
        words.push(self.program.clone());
        let mut i: usize = 0;
        let ghost all = self.argv.deep_view();
        assert(words.deep_view() =~= seq![self.program@] + all.take(0));
        while i < self.argv.len()
            invariant
                all == self.argv.deep_view(),
                i <= self.argv@.len(),
                words.deep_view() == seq![self.program@] + all.take(i as int),
            decreases self.argv.len() - i,
        {
            let ghost before = words;
            words.push(self.argv[i].clone());
            proof {
                crate::list::lemma_deep_push(before, words@.last(), words);
                crate::list::lemma_take_push(all, i as int);
                assert(words.deep_view() =~= seq![self.program@] + all.take(i + 1));
            }
            i = i + 1;
        }
        proof {
            assert(all.take(all.len() as int) =~= all);
            reveal_strlit(" ");
            assert(" "@ =~= seq![' ']);
        }
        join(&words, " ")
    }
}

/// A command that is wrapped is the last of the arguments of the wrapper, word by word, and runs
/// where it ran.
pub proof fn law_wrapper_runs_the_command(
    command: &mut CommandBuilder,
    wrapper: &str,
    args: &Vec<String>,
    other: &mut CommandBuilder,
    outer: CommandBuilder,
    i: int,
)
    requires
        call_ensures(CommandBuilder::wrap, (command, wrapper, args), ()),
        call_ensures(CommandBuilder::wrap_with, (other, outer), ()),
    ensures
        final(command).program_view() == wrapper@,
        final(command).args_view().len() == args@.len() + 1 + old(command).args_view().len(),
        0 <= i < args@.len() ==> final(command).args_view()[i] == args@[i]@,
        final(command).args_view()[args@.len() as int] == old(command).program_view(),
        0 <= i < old(command).args_view().len() ==> final(command).args_view()[args@.len() + 1 + i]
            == old(command).args_view()[i],
        final(command).cwd_view() == old(command).cwd_view(),
        final(other).program_view() == outer.program_view(),
        final(other).args_view().len() == outer.args_view().len() + 1 + old(
            other,
        ).args_view().len(),
        0 <= i < outer.args_view().len() ==> final(other).args_view()[i] == outer.args_view()[i],
        final(other).args_view()[outer.args_view().len() as int] == old(other).program_view(),
        0 <= i < old(other).args_view().len() ==> final(other).args_view()[outer.args_view().len() + 1
            + i] == old(other).args_view()[i],
        final(other).cwd_view() == old(other).cwd_view(),
{
    assert(args.deep_view().len() == args@.len());
}

/// Arguments are added at the end, and the directory is the last one that was set.
pub proof fn law_arguments_are_added_at_the_end(
    one: &mut CommandBuilder,
    arg: &str,
    more: &mut CommandBuilder,
    args: &Vec<String>,
    moved: &mut CommandBuilder,
    dir: &str,
)
    requires
        call_ensures(CommandBuilder::arg, (one, arg), ()),
        call_ensures(CommandBuilder::args, (more, args), ()),
        call_ensures(CommandBuilder::current_dir, (moved, dir), ()),
    ensures
        final(one).args_view().len() == old(one).args_view().len() + 1,
        final(one).args_view().last() == arg@,
        final(one).args_view().drop_last() == old(one).args_view(),
        final(one).program_view() == old(one).program_view(),
        final(one).cwd_view() == old(one).cwd_view(),
        final(more).args_view().take(old(more).args_view().len() as int) == old(more).args_view(),
        final(more).args_view().skip(old(more).args_view().len() as int) == args.deep_view(),
        final(more).program_view() == old(more).program_view(),
        final(more).cwd_view() == old(more).cwd_view(),
        final(moved).cwd_view() == Some(dir@),
        final(moved).program_view() == old(moved).program_view(),
        final(moved).args_view() == old(moved).args_view(),
{
    assert(final(one).args_view().drop_last() =~= old(one).args_view());
    assert(final(more).args_view().take(old(more).args_view().len() as int) =~= old(
        more,
    ).args_view());
    assert(final(more).args_view().skip(old(more).args_view().len() as int) =~= args.deep_view());
}

} // verus!
