//! The script that takes the place of `go` while benchmarks are run.
use vstd::prelude::*;

use crate::path::join_path;

verus! {

/// The permissions of the script: all may run it.
pub const SCRIPT_MODE: u32 = 0o755;

/// Where the script is put.
#[derive(Debug)]
pub struct ScriptPlace {
    /// The folder, which is to be searched for programs first.
    pub folder: String,
    /// The path of the script.
    pub path: String,
    /// The permissions of the script.
    pub mode: u32,
}

/// Where the script is put, below the directory for temporary files.
pub fn setup(temp_dir: &str) -> (r: ScriptPlace)
    ensures
        r.folder@ == crate::path::joined_path(temp_dir@, "codspeed_introspected_go"@),
        r.path@ == crate::path::joined_path(r.folder@, "go"@),
        r.mode == SCRIPT_MODE,
{
    let folder = join_path(temp_dir, "codspeed_introspected_go");
    let path = join_path(folder.as_str(), "go");
    ScriptPlace { folder, path, mode: SCRIPT_MODE }
}

/// The script stands for `go` in a folder of its own: it has that name, and all may run it.
pub proof fn law_script_stands_for_go(temp_dir: &str, r: ScriptPlace)
    requires
        call_ensures(setup, (temp_dir,), r),
    ensures
        crate::path::file_name_of(r.path@) == Some("go"@),
        crate::path::file_name_of(r.folder@) == Some("codspeed_introspected_go"@),
        r.path@ == crate::path::joined_path(r.folder@, "go"@),
        r.mode == 0o755,
{
    reveal_strlit("go");
    reveal_strlit("codspeed_introspected_go");
    crate::path::law_file_has_its_name(r.folder@, "go"@);
    crate::path::law_file_has_its_name(temp_dir@, "codspeed_introspected_go"@);
}

} // verus!
