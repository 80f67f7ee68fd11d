//! Setting the modes of a shell session.
use vstd::prelude::*;

use crate::runner_mode::{register_shell_session_mode, RunnerMode};
use crate::shell_session_store::{NoParent, SessionKind, SessionPlace, StateWrite};

verus! {

#[derive(Debug)]
pub struct UseArgs {
    /// The modes to be set.
    pub mode: Vec<RunnerMode>,
}

/// What is stored for the shell session to use the modes.
pub fn run(args: &UseArgs, place: &SessionPlace, parent_pid: Option<i32>) -> (r: Result<
    StateWrite,
    NoParent,
>)
    ensures
        match parent_pid {
            Some(pid) => {
                &&& r matches Ok(write)
                &&& write.dir@ == place.root(SessionKind::Mode)
                &&& write.path@ == crate::shell_session_store::state_file(write.dir@, pid)
                &&& crate::runner_mode::stores(write.content@, args.mode@)
            },
            None => r is Err,
        },
{
    register_shell_session_mode(&args.mode, place, parent_pid)
}

/// The modes that are set for a shell session are the ones that are found in it.
pub proof fn law_set_modes_are_found(
    args: &UseArgs,
    place: &SessionPlace,
    parent_pid: Option<i32>,
    written: Result<StateWrite, NoParent>,
    stored: &str,
    found: Option<Vec<RunnerMode>>,
)
    requires
        call_ensures(run, (args, place, parent_pid), written),
        written matches Ok(write) ==> write.content@ == stored@,
        call_ensures(crate::runner_mode::load_shell_session_mode, (Some(stored), true), found),
    ensures
        written is Ok <==> parent_pid is Some,
        written is Ok ==> (found matches Some(modes) && modes@ == args.mode@),
{
    if written is Ok {
        assert(crate::runner_mode::all_offered(args.mode@, true));
        if let Some(modes) = found {
            crate::runner_mode::law_stored_modes_are_found(stored@, args.mode@, modes@);
        }
    }
}

} // verus!
