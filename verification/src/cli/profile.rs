//! Managing profiles.
use vstd::prelude::*;

use crate::config::{
    missing_profile_message, register_shell_session_profile, CodSpeedConfig,
};
use crate::shell_session_store::{SessionKind, SessionPlace, StateWrite};
use crate::text::{borrowed_text, str_eq};

verus! {

#[derive(Debug)]
pub struct ProfileArgs {
    pub command: ProfileCommands,
}

#[derive(Debug)]
#[allow(inconsistent_fields)]
pub enum ProfileCommands {
    /// List the profiles.
    List,
    /// Show a profile: that of the name, or the one in use.
    Show { name: Option<String> },
    /// Set the URLs of a profile, which is made if it is missing.
    SetUrls { name: String, api_url: Option<String>, upload_url: Option<String> },
    /// Use a profile in this shell session.
    Use { name: String },
}

/// How the configuration is loaded for a command: the profile that is asked for, and whether it may
/// be missing. Only to show a profile, it must be there.
pub fn load_request<'a>(args: &'a ProfileArgs, selected_profile: Option<&'a str>) -> (r: (
    Option<&'a str>,
    bool,
))
    ensures
        match args.command {
            ProfileCommands::Show { name } => !r.1 && crate::text::text_of(r.0)
                == crate::config::first_of(
                name.deep_view(),
                crate::text::text_of(selected_profile),
            ),
            _ => r.1 && r.0 is None,
        },
{
    match &args.command {
        ProfileCommands::Show { name } => match borrowed_text(name) {
            Some(name) => (Some(name), false),
            None => (selected_profile, false),
        },
        _ => (None, true),
    }
}

/// What a command does.
#[derive(Debug)]
pub enum ProfileOutcome {
    /// These lines are shown below a heading.
    Listed(Vec<String>),
    /// These lines are shown below a heading with the name of the profile.
    Shown { name: String, lines: Vec<String> },
    /// The configuration was changed, and is to be stored before this line is shown.
    Saved(String),
    /// This is to be stored for the shell session before the line is shown.
    Used(StateWrite, String),
    /// It fails, with this error.
    Failed(String),
}

/// The line of a profile, with a mark on the one in use in the shell session.
pub open spec fn list_line(name: Seq<char>, active: Option<Seq<char>>) -> Seq<char> {
    "  "@ + (if active == Some(name) {
        "*"@
    } else {
        " "@
    }) + " "@ + name
}

/// The lines of all profiles.
pub fn list(config: &CodSpeedConfig, active: Option<&str>) -> (r: Vec<String>)
    requires
        config.wf(),
    ensures
        r@.len() == config.persisted.profiles.keys().len(),
        forall|i: int|
            0 <= i < r@.len() ==> (#[trigger] r@[i])@ == list_line(
                config.persisted.profiles.keys()[i],
                crate::text::text_of(active),
            ),
{
    let profiles = config.profiles();
    let n: usize = profiles.len();
    let mut out: Vec<String> = Vec::new();
    let mut i: usize = 0;
    while i < n
        invariant
            profiles.wf(),
            profiles == config.persisted.profiles,
            n == profiles.keys().len(),
            i <= n,
            out@.len() == i,
            forall|j: int|
                0 <= j < i ==> (#[trigger] out@[j])@ == list_line(
                    profiles.keys()[j],
                    crate::text::text_of(active),
                ),
        decreases n - i,
    {
        let name = profiles.key_at(i);
        let is_active: bool = match active {
            Some(active) => str_eq(active, name),
            None => false,
        };
        let mut line = "  ".to_owned();
        if is_active {
            line.append("*");
        } else {
            line.append(" ");
        }
        line.append(" ");
        line.append(name);
        out.push(line);
        i = i + 1;
    }
    out
}

/// The lines of the profile in use.
pub open spec fn show_lines(config: CodSpeedConfig) -> Seq<Seq<char>> {
    seq![
        "  api url: "@ + config.api_url@,
        "  upload url: "@ + config.upload_url@,
        "  authenticated: "@ + (if config.auth.token is Some {
            "yes"@
        } else {
            "no"@
        }),
    ]
}

/// The lines of the profile in use.
pub fn show(config: &CodSpeedConfig) -> (r: Vec<String>)
    ensures
        r.deep_view() == show_lines(*config),
{
    let mut api = "  api url: ".to_owned();
    api.append(config.api_url.as_str());
    let mut upload = "  upload url: ".to_owned();
    upload.append(config.upload_url.as_str());
    let mut auth = "  authenticated: ".to_owned();
    if config.auth.token.is_some() {
        auth.append("yes");
    } else {
        auth.append("no");
    }
    let r = vec![api, upload, auth];
    assert(r.deep_view() =~= show_lines(*config));
    r
}

/// The profile with the URLs that are given in place of those it had.
pub open spec fn with_urls(
    profile: crate::config::ProfileView,
    api_url: Option<Seq<char>>,
    upload_url: Option<Seq<char>>,
) -> crate::config::ProfileView {
    crate::config::ProfileView {
        token: profile.token,
        api_url: crate::config::first_of(api_url, profile.api_url),
        upload_url: crate::config::first_of(upload_url, profile.upload_url),
    }
}

/// Whether what is in use is the same in both: the token, the URLs and the profile.
pub open spec fn same_use(a: CodSpeedConfig, b: CodSpeedConfig) -> bool {
    &&& a.auth == b.auth
    &&& a.api_url == b.api_url
    &&& a.upload_url == b.upload_url
    &&& a.selected() == b.selected()
}

/// Sets the URLs of a profile, which is made if it was missing, and says so. What is in use does not
/// change.
pub fn set(
    config: &mut CodSpeedConfig,
    profile_name: &str,
    api_url: Option<String>,
    upload_url: Option<String>,
) -> (r: String)
    requires
        old(config).wf(),
    ensures
        final(config).wf(),
        final(config).version() == old(config).version(),
        same_use(*final(config), *old(config)),
        final(config).profiles_view() == old(config).profiles_view().insert(
            profile_name@,
            with_urls(
                if old(config).profiles_view().contains_key(profile_name@) {
                    old(config).profiles_view()[profile_name@]
                } else {
                    crate::config::empty_profile()
                },
                api_url.deep_view(),
                upload_url.deep_view(),
            ),
        ),
        r@ == "Profile `"@ + profile_name@ + "` saved"@,
{
    let profile = config.profile_mut(profile_name);
    if let Some(url) = api_url {
        profile.api_url = Some(url);
    }
    if let Some(url) = upload_url {
        profile.upload_url = Some(url);
    }
    let mut text = "Profile `".to_owned();
    text.append(profile_name);
    text.append("` saved");
    text
}

/// What is stored for the shell session to use a profile, or the error where there is no such
/// profile or no shell to store it for.
pub fn use_profile(
    config: &CodSpeedConfig,
    profile_name: &str,
    place: &SessionPlace,
    parent_pid: Option<i32>,
) -> (r: Result<StateWrite, String>)
    requires
        config.wf(),
    ensures
        if !config.profiles_view().contains_key(profile_name@) {
            r matches Err(m) && m@ == crate::config::missing_profile_text(profile_name@)
        } else {
            match parent_pid {
                Some(pid) => {
                    &&& r matches Ok(write)
                    &&& write.dir@ == place.root(SessionKind::Profile)
                    &&& write.path@ == crate::shell_session_store::state_file(write.dir@, pid)
                    &&& crate::json::text_in_json(write.content@) == Some(profile_name@)
                },
                None => r matches Err(m) && m@ == "Could not determine parent PID"@,
            }
        },
{
    if config.profile(profile_name).is_none() {
        return Err(missing_profile_message(profile_name));
    }
    match register_shell_session_profile(profile_name, place, parent_pid) {
        Ok(write) => Ok(write),
        Err(error) => Err(error.message()),
    }
}

/// What a command does with the configuration that was loaded for it. `active` is the profile of the
/// shell session.
pub fn run(
    args: ProfileArgs,
    config: &mut CodSpeedConfig,
    active: Option<&str>,
    place: &SessionPlace,
    parent_pid: Option<i32>,
) -> (r: ProfileOutcome)
    requires
        old(config).wf(),
    ensures
        final(config).wf(),
        match args.command {
            ProfileCommands::List => {
                &&& r matches ProfileOutcome::Listed(lines)
                &&& *final(config) == *old(config)
                &&& lines@.len() == old(config).persisted.profiles.keys().len()
                &&& forall|i: int|
                    0 <= i < lines@.len() ==> (#[trigger] lines@[i])@ == list_line(
                        old(config).persisted.profiles.keys()[i],
                        crate::text::text_of(active),
                    )
            },
            ProfileCommands::Show { .. } => {
                &&& r matches ProfileOutcome::Shown { name, lines }
                &&& *final(config) == *old(config)
                &&& name@ == old(config).selected()
                &&& lines.deep_view() == show_lines(*old(config))
            },
            ProfileCommands::SetUrls { name, api_url, upload_url } => {
                &&& r matches ProfileOutcome::Saved(line)
                &&& line@ == "Profile `"@ + name@ + "` saved"@
                &&& final(config).version() == old(config).version()
                &&& same_use(*final(config), *old(config))
                &&& final(config).profiles_view() == old(config).profiles_view().insert(
                    name@,
                    with_urls(
                        if old(config).profiles_view().contains_key(name@) {
                            old(config).profiles_view()[name@]
                        } else {
                            crate::config::empty_profile()
                        },
                        api_url.deep_view(),
                        upload_url.deep_view(),
                    ),
                )
            },
            ProfileCommands::Use { name } => {
                &&& *final(config) == *old(config)
                &&& match r {
                    ProfileOutcome::Used(write, line) => {
                        &&& old(config).profiles_view().contains_key(name@)
                        &&& parent_pid matches Some(pid) && write.path@
                            == crate::shell_session_store::state_file(
                            place.root(SessionKind::Profile),
                            pid,
                        )
                        &&& write.dir@ == place.root(SessionKind::Profile)
                        &&& crate::json::text_in_json(write.content@) == Some(name@)
                        &&& line@ == "Active CodSpeed profile set to `"@ + name@
                            + "` for this shell session"@
                    },
                    ProfileOutcome::Failed(m) => {
                        ||| !old(config).profiles_view().contains_key(name@) && m@
                            == crate::config::missing_profile_text(name@)
                        ||| old(config).profiles_view().contains_key(name@) && parent_pid is None
                            && m@ == "Could not determine parent PID"@
                    },
                    _ => false,
                }
            },
        },
{
    match args.command {
        ProfileCommands::List => ProfileOutcome::Listed(list(config, active)),
        ProfileCommands::Show { .. } => ProfileOutcome::Shown {
            name: config.selected_profile_name().to_owned(),
            lines: show(config),
        },
        ProfileCommands::SetUrls { name, api_url, upload_url } => {
            ProfileOutcome::Saved(set(config, name.as_str(), api_url, upload_url))
        },
        ProfileCommands::Use { name } => match use_profile(
            config,
            name.as_str(),
            place,
            parent_pid,
        ) {
            Ok(write) => {
                let mut line = "Active CodSpeed profile set to `".to_owned();
                line.append(name.as_str());
                line.append("` for this shell session");
                ProfileOutcome::Used(write, line)
            },
            Err(error) => ProfileOutcome::Failed(error),
        },
    }
}

/// Only to show a profile it must be there: that of the name that is given, or else the one that is
/// asked for.
pub proof fn law_profile_must_exist_to_be_shown<'a>(
    args: &'a ProfileArgs,
    selected: Option<&'a str>,
    r: (Option<&'a str>, bool),
)
    requires
        call_ensures(load_request, (args, selected), r),
    ensures
        r.1 <==> !(args.command is Show),
        args.command matches ProfileCommands::Show { name } ==> (name matches Some(n) ==> (
        r.0 matches Some(asked) && asked@ == n@)),
        args.command matches ProfileCommands::Show { name } ==> (name is None ==> crate::text::text_of(
            r.0,
        ) == crate::text::text_of(selected)),
        !(args.command is Show) ==> r.0 is None,
{
}

/// Every profile has a line that ends with its name, in the order of the names, and the one in use in
/// the shell session alone has a star before it.
pub proof fn law_active_profile_is_marked(
    config: &CodSpeedConfig,
    active: Option<&str>,
    lines: Vec<String>,
    i: int,
)
    requires
        call_ensures(list, (config, active), lines),
        0 <= i < config.persisted.profiles.keys().len(),
    ensures
        lines@.len() == config.persisted.profiles.keys().len(),
        config.persisted.profiles.keys()[i].is_suffix_of(lines@[i]@),
        lines@[i]@.len() == config.persisted.profiles.keys()[i].len() + 4,
        lines@[i]@[2] == '*' <==> (active matches Some(a) && a@
            == config.persisted.profiles.keys()[i]),
{
    reveal_strlit("  ");
    reveal_strlit("*");
    reveal_strlit(" ");
    let name = config.persisted.profiles.keys()[i];
    let line = lines@[i]@;
    assert(line == list_line(name, crate::text::text_of(active)));
    assert(line.skip(line.len() - name.len()) =~= name);
}

/// What is shown of a profile are its URLs and whether it has a token, never the token.
pub proof fn law_token_is_not_shown(
    a: &CodSpeedConfig,
    b: &CodSpeedConfig,
    of_a: Vec<String>,
    of_b: Vec<String>,
)
    requires
        call_ensures(show, (a,), of_a),
        call_ensures(show, (b,), of_b),
        a.api_url@ == b.api_url@,
        a.upload_url@ == b.upload_url@,
    ensures
        of_a@.len() == 3,
        a.api_url@.is_suffix_of(of_a@[0]@),
        a.upload_url@.is_suffix_of(of_a@[1]@),
        (a.auth.token is Some <==> b.auth.token is Some) <==> of_a.deep_view() == of_b.deep_view(),
        "yes"@.is_suffix_of(of_a@[2]@) <==> a.auth.token is Some,
{
    reveal_strlit("yes");
    reveal_strlit("no");
    let x = of_a.deep_view();
    let y = of_b.deep_view();
    assert(x.len() == of_a@.len());
    assert(x[0] == of_a@[0]@ && x[1] == of_a@[1]@ && x[2] == of_a@[2]@);
    assert(x[0].skip(x[0].len() - a.api_url@.len()) =~= a.api_url@);
    assert(x[1].skip(x[1].len() - a.upload_url@.len()) =~= a.upload_url@);
    let start = "  authenticated: "@;
    assert((start + "yes"@).skip(start.len() as int) =~= "yes"@);
    assert((start + "no"@).last() == 'o');
    assert((start + "yes"@).last() == 's');
    if a.auth.token is None {
        assert(x[2] == start + "no"@);
        if "yes"@.is_suffix_of(x[2]) {
            assert(x[2].last() == "yes"@.last());
        }
    }
    if (a.auth.token is Some) != (b.auth.token is Some) {
        assert(x[2].last() != y[2].last());
    } else {
        assert(x =~= y);
    }
}

/// Setting the URLs of a profile changes those that are given, and neither its token nor any other URL.
pub proof fn law_only_given_urls_are_set(
    profile: crate::config::ProfileView,
    api_url: Option<Seq<char>>,
    upload_url: Option<Seq<char>>,
)
    ensures
        with_urls(profile, api_url, upload_url).token == profile.token,
        api_url is Some ==> with_urls(profile, api_url, upload_url).api_url == api_url,
        api_url is None ==> with_urls(profile, api_url, upload_url).api_url == profile.api_url,
        upload_url is Some ==> with_urls(profile, api_url, upload_url).upload_url == upload_url,
        upload_url is None ==> with_urls(profile, api_url, upload_url).upload_url
            == profile.upload_url,
{
}

/// A profile that is used in a shell session is the one that is found there; one that does not exist
/// cannot be used.
pub proof fn law_used_profile_is_found(
    config: &CodSpeedConfig,
    name: &str,
    place: &SessionPlace,
    parent_pid: Option<i32>,
    r: Result<StateWrite, String>,
    stored: &str,
    found: Option<Option<String>>,
)
    requires
        call_ensures(use_profile, (config, name, place, parent_pid), r),
        r matches Ok(write) ==> write.content@ == stored@,
        call_ensures(crate::config::load_shell_session_profile, (Some(stored),), found),
    ensures
        r is Ok <==> config.profiles_view().contains_key(name@) && parent_pid is Some,
        r is Ok ==> (found matches Some(Some(profile)) && profile@ == name@),
{
}

} // verus!
