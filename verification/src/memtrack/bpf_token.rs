//! Delegated BPF tokens.
use vstd::prelude::*;

verus! {

/// Whether there is a delegated BPF token, which lets BPF programs be loaded without privileges on
/// the host. It is taken from the directory that `LIBBPF_BPF_TOKEN_PATH` names.
///
/// `path` is the value of that variable, if it is set, and `is_dir` tells whether it names a
/// directory.
pub fn has_delegated_bpf_token(path: Option<&str>, is_dir: bool) -> (r: bool)
    ensures
        r == (path matches Some(p) && p@.len() > 0 && is_dir),
{
    match path {
        Some(p) => p.unicode_len() > 0 && is_dir,
        None => false,
    }
}

/// There is a token if a path is given that is a directory.
pub proof fn law_token_is_a_directory(path: &str, is_dir: bool, given: bool, missing: bool)
    requires
        call_ensures(has_delegated_bpf_token, (Some(path), is_dir), given),
        call_ensures(has_delegated_bpf_token, (None, is_dir), missing),
    ensures
        given <==> path@.len() > 0 && is_dir,
        !missing,
{
}

} // verus!
