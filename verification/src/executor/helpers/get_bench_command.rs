//! The command of a benchmark.
use vstd::prelude::*;

use crate::executor::config::ExecutorConfig;
use crate::text::{replace, trim};

verus! {

/// There is no command.
#[derive(Debug, Clone, Copy, PartialEq, Eq)]
pub struct EmptyCommand;

impl EmptyCommand {
    /// The text of the error.
    pub fn message(&self) -> (r: String)
        ensures
            r@ == "The bench command is empty"@,
    {
        "The bench command is empty".to_owned()
    }
}

/// The command of a benchmark, without the whitespace around it. `cargo codspeed` is run as
/// `cargo-codspeed`, as some versions of cargo do not run under some of valgrind.
pub fn get_bench_command(config: &ExecutorConfig) -> (r: Result<String, EmptyCommand>)
    ensures
        match r {
            Ok(command) => crate::text::trimmed(config.command@).len() > 0 && command@
                == crate::text::replaced(
                crate::text::trimmed(config.command@),
                "cargo codspeed"@,
                "cargo-codspeed"@,
            ),
            Err(_) => crate::text::trimmed(config.command@).len() == 0,
        },
{
    let command = trim(config.command.as_str());
    if command.as_str().unicode_len() == 0 {
        return Err(EmptyCommand);
    }
    proof {
        reveal_strlit("cargo codspeed");
    }
    Ok(replace(command.as_str(), "cargo codspeed", "cargo-codspeed"))
}

/// A command is run as it is given, without whitespace around it, unless it runs `cargo codspeed`:
/// the first time that it does, and each time after that, `cargo-codspeed` is run instead. There is
/// no command where it is empty but for whitespace.
pub proof fn law_command_is_kept(
    config: &ExecutorConfig,
    r: Result<String, EmptyCommand>,
    before: Seq<char>,
    after: Seq<char>,
)
    requires
        call_ensures(get_bench_command, (config,), r),
    ensures
        ({
            let command = crate::text::trimmed(config.command@);
            let cargo = "cargo codspeed"@;
            &&& r is Err <==> command.len() == 0
            &&& command.len() > 0 && (forall|i: int|
                0 <= i < command.len() ==> !cargo.is_prefix_of(#[trigger] command.skip(i))) ==> (
            r matches Ok(text) && text@ == command)
            &&& command == before + cargo + after && (forall|i: int|
                0 <= i < before.len() ==> !cargo.is_prefix_of(#[trigger] (before + cargo + after).skip(i)))
                ==> (r matches Ok(text) && text@ == before + "cargo-codspeed"@ + crate::text::replaced(
                after,
                cargo,
                "cargo-codspeed"@,
            ))
        }),
{
    reveal_strlit("cargo codspeed");
    let command = crate::text::trimmed(config.command@);
    let cargo = "cargo codspeed"@;
    if command.len() > 0 && (forall|i: int|
        0 <= i < command.len() ==> !cargo.is_prefix_of(#[trigger] command.skip(i))) {
        crate::text::law_nothing_else_is_replaced(command, cargo, "cargo-codspeed"@);
    }
    if command == before + cargo + after && (forall|i: int|
        0 <= i < before.len() ==> !cargo.is_prefix_of(#[trigger] (before + cargo + after).skip(i))) {
        crate::text::law_each_occurrence_is_replaced(before, cargo, after, "cargo-codspeed"@);
    }
}

} // verus!
