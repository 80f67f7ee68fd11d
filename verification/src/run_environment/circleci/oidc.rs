//! Tokens that CircleCI mints.
use vstd::prelude::*;

use crate::bytes::{from_utf8, from_utf8_lossy};
use crate::json::text_to_json;
use crate::text::{concat, trim};

verus! {

/// The program that CircleCI offers in its jobs.
pub const CIRCLECI_CLI: &'static str = "circleci";

/// The claims of a token for `audience`, in JSON.
pub open spec fn claims_for(audience: Seq<char>) -> Seq<char> {
    "{\"aud\":"@ + crate::json::json_text(audience) + "}"@
}

/// The arguments with which the program mints a token for `audience`. A token that it minted for the
/// organization or for others is of no use: the audience is what tells them apart.
pub fn mint_arguments(audience: &str) -> (r: Vec<String>)
    ensures
        r.deep_view() == seq!["run"@, "oidc"@, "get"@, "--claims"@, claims_for(audience@)],
        crate::json::text_in_json(crate::json::json_text(audience@)) == Some(audience@),
{
    let mut claims = "{\"aud\":".to_owned();
    claims.append(text_to_json(audience).as_str());
    claims.append("}");
    let mut args: Vec<String> = Vec::new();
    args.push("run".to_owned());
    args.push("oidc".to_owned());
    args.push("get".to_owned());
    args.push("--claims".to_owned());
    args.push(claims);
    assert(args.deep_view() =~= seq![
        "run"@,
        "oidc"@,
        "get"@,
        "--claims"@,
        claims_for(audience@),
    ]);
    args
}

/// What came of running the program.
#[derive(Debug)]
pub enum MintOutput {
    /// It could not be run, for this reason.
    NotRun(String),
    /// It failed and wrote this to its error output.
    Failed(Vec<u8>),
    /// It succeeded and wrote this to its output.
    Succeeded(Vec<u8>),
}

/// The token that was minted, or the error.
pub open spec fn minted(output: MintOutput) -> Result<Seq<char>, Seq<char>> {
    match output {
        MintOutput::NotRun(error) => Err("Failed to run the `circleci` CLI: "@ + error@),
        MintOutput::Failed(stderr) => Err(
            "`circleci run oidc get` failed: "@ + crate::text::trimmed(
                crate::bytes::lossy_text(stderr@),
            ),
        ),
        MintOutput::Succeeded(stdout) => if !vstd::utf8::valid_utf8(stdout@) {
            Err("The OIDC token minted by CircleCI is not valid UTF-8"@)
        } else {
            let token = crate::text::trimmed(vstd::utf8::decode_utf8(stdout@));
            if token.len() == 0 {
                Err("`circleci run oidc get` returned an empty token"@)
            } else {
                Ok(token)
            }
        },
    }
}

/// The token that was minted, or the error with what the program itself reported. Tokens must not be
/// logged.
pub fn mint_token(output: &MintOutput) -> (r: Result<String, String>)
    ensures
        match minted(*output) {
            Ok(token) => r matches Ok(t) && t@ == token,
            Err(message) => r matches Err(m) && m@ == message,
        },
{
    match output {
        MintOutput::NotRun(error) => Err(
            concat("Failed to run the `circleci` CLI: ", error.as_str()),
        ),
        MintOutput::Failed(stderr) => {
            let text = from_utf8_lossy(stderr.as_slice());
            Err(concat("`circleci run oidc get` failed: ", trim(text.as_str()).as_str()))
        },
        MintOutput::Succeeded(stdout) => match from_utf8(stdout.as_slice()) {
            None => Err("The OIDC token minted by CircleCI is not valid UTF-8".to_owned()),
            Some(text) => {
                let token = trim(text.as_str());
                if token.as_str().unicode_len() == 0 {
                    Err("`circleci run oidc get` returned an empty token".to_owned())
                } else {
                    Ok(token)
                }
            },
        },
    }
}

/// The token is what the program wrote, without whitespace around it. There is none where the program
/// could not be run or failed, nor where it wrote nothing or what is no text.
pub proof fn law_token_is_what_was_written(output: MintOutput, r: Result<String, String>)
    requires
        call_ensures(mint_token, (&output,), r),
    ensures
        output is NotRun || output is Failed ==> r is Err,
        output matches MintOutput::Succeeded(stdout) ==> {
            let text = crate::text::trimmed(vstd::utf8::decode_utf8(stdout@));
            &&& r is Ok <==> vstd::utf8::valid_utf8(stdout@) && text.len() > 0
            &&& r matches Ok(token) ==> token@ == text
        },
{
}

/// The program is told for whom the token is.
pub proof fn law_token_is_for_its_audience(audience: &str, r: Vec<String>)
    requires
        call_ensures(mint_arguments, (audience,), r),
    ensures
        r@.len() == 5,
        r@[0]@ == "run"@ && r@[1]@ == "oidc"@ && r@[2]@ == "get"@ && r@[3]@ == "--claims"@,
        r@[4]@ == "{\"aud\":"@ + crate::json::json_text(audience@) + "}"@,
{
    let all = r.deep_view();
    assert(all.len() == r@.len());
    assert(all[0] == r@[0]@ && all[1] == r@[1]@ && all[2] == r@[2]@ && all[3] == r@[3]@ && all[4]
        == r@[4]@);
}

} // verus!
