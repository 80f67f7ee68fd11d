//! The command line.
use vstd::prelude::*;

use self::exec::ExecArgs;
use self::profile::ProfileArgs;
use self::shared::ExecAndRunSharedArgs;
use self::use_mode::UseArgs;
use crate::config::{CodSpeedConfig, ConfigError, ConfigOverrides, PersistedConfig};
use crate::executor::helpers::command::CommandBuilder;
use crate::text::{borrowed_text, clone_text};

pub mod exec;
pub mod experimental;
pub mod profile;
pub mod run;
pub mod shared;
pub mod show;
pub mod use_mode;

verus! {

// ---------------------------------------------------------------------------------------------
// Arguments
// ---------------------------------------------------------------------------------------------

/// The arguments of all commands, and the command.
#[derive(Debug)]
pub struct Cli {
    pub api_url: Option<String>,
    pub oauth_token: Option<String>,
    /// The name of the configuration file; profiles have taken its place.
    pub config_name: Option<String>,
    pub profile: Option<String>,
    /// The configuration file of the project.
    pub config: Option<String>,
    /// Where installed tools are cached.
    pub setup_cache_dir: Option<String>,
    pub command: Commands,
}

/// The arguments of `codspeed run`.
#[derive(Debug)]
pub struct RunArgs {
    pub shared: ExecAndRunSharedArgs,
    pub command: Vec<String>,
}

#[derive(Debug)]
pub enum Commands {
    /// Run a program that holds benchmarks.
    Run(Box<RunArgs>),
    /// Run a command as a benchmark.
    Exec(Box<ExecArgs>),
    /// Log in.
    Auth,
    /// Manage profiles.
    Profile(ProfileArgs),
    /// Install tools.
    Setup,
    /// Show the status of authentication, tools and system.
    Status,
    /// Set the modes of the shell session.
    Use(UseArgs),
    /// Show the modes of the shell session.
    Show,
    /// Update this program.
    Update,
    Internal(InternalCommands),
}

/// Commands by which this program calls itself.
#[derive(Debug)]
pub enum InternalCommands {
    /// Run the profiler samply with these arguments.
    Samply(SamplyArgs),
}

#[derive(Debug)]
pub struct SamplyArgs {
    pub args: Vec<String>,
}

/// The variable with the program that is run in place of the current one, which need not know the
/// internal commands: it may be a host of this library or be started by a script.
pub const SELF_EXE_ENV_VAR: &'static str = "CODSPEED_SELF_EXE";

impl InternalCommands {
    /// The words that follow the program.
    pub open spec fn argument_words(self) -> Seq<Seq<char>> {
        match self {
            InternalCommands::Samply(samply) => seq!["samply"@] + samply.args.deep_view(),
        }
    }

    /// The command that runs this program again for an internal command. `self_exe` is the value of
    /// `SELF_EXE_ENV_VAR`, `current_exe` the path of this program, where it is known.
    pub fn get_command_builder(&self, self_exe: Option<&str>, current_exe: Option<&str>) -> (r:
        Result<CommandBuilder, String>)
        ensures
            match crate::config::first_of(
                crate::text::text_of(self_exe),
                crate::text::text_of(current_exe),
            ) {
                Some(program) => {
                    &&& r matches Ok(command)
                    &&& command.program_view() == program
                    &&& command.args_view() == self.argument_words()
                    &&& command.cwd_view() is None
                },
                None => r matches Err(m) && m@
                    == "failed to resolve current executable for internal subcommand"@,
            },
    {
        let program = match self_exe {
            Some(program) => program,
            None => match current_exe {
                Some(program) => program,
                None => {
                    return Err(
                        "failed to resolve current executable for internal subcommand".to_owned(),
                    );
                },
            },
        };
        let mut builder = CommandBuilder::new(program);
        match self {
            InternalCommands::Samply(samply) => {
                builder.arg("samply");
                builder.args(&samply.args);
            },
        }
        assert(builder.args_view() =~= self.argument_words());
        Ok(builder)
    }
}

// ---------------------------------------------------------------------------------------------
// Configuration
// ---------------------------------------------------------------------------------------------

/// What to say where a configuration file is asked for by name.
pub const CONFIG_NAME_WARNING: &'static str = "`--config-name` / `CODSPEED_CONFIG_NAME` is deprecated; use `--profile` / `CODSPEED_PROFILE` instead.";

/// Whether a command may run without the profile that is asked for, which it may be about to make.
pub open spec fn may_lack_profile(command: Commands) -> bool {
    command is Auth || command is Profile
}

/// What the command line sets in place of the values of the profile.
pub open spec fn sets_overrides(cli: Cli, overrides: ConfigOverrides) -> bool {
    &&& crate::text::text_of(overrides.oauth_token) == cli.oauth_token.deep_view()
    &&& crate::text::text_of(overrides.api_url) == cli.api_url.deep_view()
    &&& overrides.upload_url is None
}

/// The configuration for a command. `persisted` is what is stored, `session_profile` the profile of
/// the shell session.
pub fn load_config(cli: &Cli, persisted: PersistedConfig, session_profile: Option<&str>) -> (r:
    Result<CodSpeedConfig, ConfigError>)
    requires
        persisted.wf(),
    ensures
        configured(
            *cli,
            crate::config::profile_views(persisted.profiles),
            crate::text::text_of(session_profile),
            r,
        ),
        r matches Ok(config) ==> config.wf() && config.profiles_view()
            == crate::config::profile_views(persisted.profiles) && config.version()
            == persisted.version,
{
    let overrides = ConfigOverrides {
        oauth_token: borrowed_text(&cli.oauth_token),
        api_url: borrowed_text(&cli.api_url),
        upload_url: None,
    };
    let allow_missing: bool = match &cli.command {
        Commands::Auth => true,
        Commands::Profile(_) => true,
        _ => false,
    };
    assert(sets_overrides(*cli, overrides));
    CodSpeedConfig::load_with_profile(
        persisted,
        borrowed_text(&cli.profile),
        session_profile,
        overrides,
        allow_missing,
    )
}

/// What loading the configuration for a command gives.
pub open spec fn configured(
    cli: Cli,
    profiles: Map<Seq<char>, crate::config::ProfileView>,
    session_profile: Option<Seq<char>>,
    r: Result<CodSpeedConfig, ConfigError>,
) -> bool {
    exists|overrides: ConfigOverrides| #[trigger]
        sets_overrides(cli, overrides) && crate::config::loaded(
            profiles,
            crate::config::selected_name(cli.profile.deep_view(), session_profile),
            overrides,
            may_lack_profile(cli.command),
            r,
        )
}

// ---------------------------------------------------------------------------------------------
// Authentication
// ---------------------------------------------------------------------------------------------

/// How requests are authenticated.
#[derive(Debug)]
pub enum Authentication {
    /// With a token that was given for this run.
    RunToken(String),
    /// With the token of the profile.
    CliLogin(String),
    Tokenless,
}

pub enum AuthenticationView {
    RunToken(Seq<char>),
    CliLogin(Seq<char>),
    Tokenless,
}

impl View for Authentication {
    type V = AuthenticationView;

    open spec fn view(&self) -> AuthenticationView {
        match self {
            Authentication::RunToken(token) => AuthenticationView::RunToken(token@),
            Authentication::CliLogin(token) => AuthenticationView::CliLogin(token@),
            Authentication::Tokenless => AuthenticationView::Tokenless,
        }
    }
}

/// How the API is reached.
#[derive(Debug)]
pub struct CodSpeedAPIClient {
    pub authentication: Authentication,
    pub api_url: String,
}

/// The token that is given with a command.
pub open spec fn token_of(command: Commands) -> Option<Seq<char>> {
    match command {
        Commands::Run(args) => args.shared.token.deep_view(),
        Commands::Exec(args) => args.shared.token.deep_view(),
        _ => None,
    }
}

/// How requests are authenticated: with the token of the run, or else with that of the profile.
pub open spec fn authentication_of(
    run_token: Option<Seq<char>>,
    profile_token: Option<Seq<char>>,
) -> AuthenticationView {
    match (run_token, profile_token) {
        (Some(token), _) => AuthenticationView::RunToken(token),
        (None, Some(token)) => AuthenticationView::CliLogin(token),
        (None, None) => AuthenticationView::Tokenless,
    }
}

/// How the API is reached for a command. The token that is found here is used throughout the run.
pub fn build_api_client(cli: &Cli, config: &CodSpeedConfig) -> (r: CodSpeedAPIClient)
    ensures
        r.authentication@ == authentication_of(token_of(cli.command), config.auth.deep_view()),
        r.api_url@ == config.api_url@,
{
    let run_token = match &cli.command {
        Commands::Run(args) => clone_text(&args.shared.token),
        Commands::Exec(args) => clone_text(&args.shared.token),
        _ => None,
    };
    let authentication = match run_token {
        Some(token) => Authentication::RunToken(token),
        None => match clone_text(&config.auth.token) {
            Some(token) => Authentication::CliLogin(token),
            None => Authentication::Tokenless,
        },
    };
    CodSpeedAPIClient { authentication, api_url: config.api_url.clone() }
}

/// Of two tokens the one that is given with the command is used: the token of the profile makes no
/// difference then. Without any token requests are not authenticated.
pub proof fn law_token_of_the_run_wins(
    run_token: Option<Seq<char>>,
    profile_token: Option<Seq<char>>,
    other_token: Option<Seq<char>>,
)
    ensures
        run_token is Some ==> authentication_of(run_token, profile_token) == authentication_of(
            run_token,
            other_token,
        ),
        authentication_of(run_token, profile_token) is Tokenless <==> run_token is None
            && profile_token is None,
{
}

// ---------------------------------------------------------------------------------------------
// Commands
// ---------------------------------------------------------------------------------------------

/// A path with the home directory in place of a `~` at its start.
pub open spec fn expanded(path: Seq<char>, home: Option<Seq<char>>) -> Seq<char> {
    match home {
        Some(dir) => if path.len() > 0 && path[0] == '~' && (path.len() == 1 || path[1] == '/') {
            dir + path.skip(1)
        } else {
            path
        },
        None => path,
    }
}

/// Whether `r` is the path with the home directory, if there is one, in place of a `~` at its start
/// that is all of it or is followed by a slash. A `~` that is followed by a backslash may be replaced
/// or not.
pub open spec fn is_expanded(r: Seq<char>, path: Seq<char>, home: Option<Seq<char>>) -> bool {
    if path.len() > 1 && path[0] == '~' && path[1] == '\\' {
        r == path || (home is Some && r == home->0 + path.skip(1))
    } else {
        r == expanded(path, home)
    }
}

/// `shellexpand::tilde_with_context`: a `~` at the start of the path, if it is the whole path or is
/// followed by a slash, is replaced by the home directory, if there is one. One that is followed by a
/// backslash is replaced on Windows alone.
#[verifier::external_body]
fn tilde(path: &str, home: Option<&str>) -> (r: String)
    ensures
        is_expanded(r@, path@, crate::text::text_of(home)),
{
    shellexpand::tilde_with_context(path, || home).into_owned()
}

/// Whether the command sets up logging itself.
pub open spec fn logs_itself(command: Commands) -> bool {
    command is Run || command is Exec || command is Internal
}

/// Whether `after` is `before` with an upload URL, which is `url` where none was given.
pub open spec fn has_upload_url(
    before: ExecAndRunSharedArgs,
    after: ExecAndRunSharedArgs,
    url: Seq<char>,
) -> bool {
    &&& after.upload_url.deep_view() == Some(
        crate::config::text_or(before.upload_url.deep_view(), url),
    )
    &&& after == (ExecAndRunSharedArgs { upload_url: after.upload_url, ..before })
}

/// Whether `after` is `before` with an upload URL, where the command uploads results.
pub open spec fn completed(before: Commands, after: Commands, url: Seq<char>) -> bool {
    match before {
        Commands::Run(args) => {
            &&& after matches Commands::Run(full)
            &&& has_upload_url(args.shared, full.shared, url)
            &&& full.command == args.command
        },
        Commands::Exec(args) => {
            &&& after matches Commands::Exec(full)
            &&& has_upload_url(args.shared, full.shared, url)
            &&& full.walltime_args == args.walltime_args
            &&& full.name == args.name
            &&& full.command == args.command
        },
        _ => after == before,
    }
}

fn with_upload_url(shared: ExecAndRunSharedArgs, url: &String) -> (r: ExecAndRunSharedArgs)
    ensures
        has_upload_url(shared, r, url@),
{
    let mut shared = shared;
    if shared.upload_url.is_none() {
        shared.upload_url = Some(url.clone());
    }
    shared
}

/// What is needed to perform a command.
#[derive(Debug)]
pub struct Launch {
    pub config: CodSpeedConfig,
    pub api_client: CodSpeedAPIClient,
    /// What the user is warned about.
    pub warning: Option<&'static str>,
    pub setup_cache_dir: Option<String>,
    /// Whether logging is set up before the command is performed.
    pub init_logger: bool,
    pub command: Commands,
}

/// What is needed to perform the command, or the error in the configuration. `persisted` is what is
/// stored, `session_profile` the profile of the shell session, `home` the home directory.
pub fn run(
    cli: Cli,
    persisted: PersistedConfig,
    session_profile: Option<&str>,
    home: Option<&str>,
) -> (r: Result<Launch, ConfigError>)
    requires
        persisted.wf(),
    ensures
        exists|loaded: Result<CodSpeedConfig, ConfigError>| #[trigger]
            configured(
                cli,
                crate::config::profile_views(persisted.profiles),
                crate::text::text_of(session_profile),
                loaded,
            ) && match (loaded, r) {
                (Ok(config), Ok(launch)) => launch.config == config && config.wf()
                    && config.profiles_view() == crate::config::profile_views(persisted.profiles),
                (Err(error), Err(e)) => e == error,
                _ => false,
            },
        r matches Ok(launch) ==> {
            &&& launch.api_client.authentication@ == authentication_of(
                token_of(cli.command),
                launch.config.auth.deep_view(),
            )
            &&& launch.api_client.api_url@ == launch.config.api_url@
            &&& launch.warning is Some <==> cli.config_name is Some
            &&& launch.warning matches Some(warning) ==> warning@ == CONFIG_NAME_WARNING@
            &&& launch.init_logger == !logs_itself(cli.command)
            &&& completed(cli.command, launch.command, launch.config.upload_url@)
            &&& match cli.setup_cache_dir {
                Some(dir) => {
                    &&& launch.setup_cache_dir matches Some(full)
                    &&& is_expanded(full@, dir@, crate::text::text_of(home))
                },
                None => launch.setup_cache_dir is None,
            }
        },
{
    let config = match load_config(&cli, persisted, session_profile) {
        Ok(config) => config,
        Err(error) => {
            return Err(error);
        },
    };
    let api_client = build_api_client(&cli, &config);
    let warning: Option<&'static str> = if cli.config_name.is_some() {
        Some(CONFIG_NAME_WARNING)
    } else {
        None
    };
    let setup_cache_dir = match &cli.setup_cache_dir {
        Some(dir) => Some(tilde(dir.as_str(), home)),
        None => None,
    };
    let init_logger: bool = match &cli.command {
        Commands::Run(_) => false,
        Commands::Exec(_) => false,
        Commands::Internal(_) => false,
        _ => true,
    };
    let command = match cli.command {
        Commands::Run(args) => {
            let args = *args;
            Commands::Run(
                Box::new(
                    RunArgs {
                        shared: with_upload_url(args.shared, &config.upload_url),
                        command: args.command,
                    },
                ),
            )
        },
        Commands::Exec(args) => {
            let args = *args;
            Commands::Exec(
                Box::new(
                    ExecArgs {
                        shared: with_upload_url(args.shared, &config.upload_url),
                        walltime_args: args.walltime_args,
                        name: args.name,
                        command: args.command,
                    },
                ),
            )
        },
        command => command,
    };
    Ok(Launch { config, api_client, warning, setup_cache_dir, init_logger, command })
}

// ---------------------------------------------------------------------------------------------
// Laws
// ---------------------------------------------------------------------------------------------

/// The configuration of a command is that of the profile that is asked for on the command line, with
/// the token and the URL of the API that are given there. Only commands that log in or manage profiles
/// may do without the profile.
pub proof fn law_command_line_is_configured(
    cli: Cli,
    persisted: PersistedConfig,
    session: Option<&str>,
    r: Result<CodSpeedConfig, ConfigError>,
)
    requires
        call_ensures(load_config, (&cli, persisted, session), r),
        cli.profile is Some,
    ensures
        ({
            let profiles = crate::config::profile_views(persisted.profiles);
            let name = cli.profile->0@;
            &&& r is Ok <==> profiles.contains_key(name) || cli.command is Auth || cli.command
                is Profile
            &&& r matches Ok(config) ==> {
                &&& config.selected_profile@ == name
                &&& cli.oauth_token matches Some(token) ==> config.auth.token.deep_view() == Some(
                    token@,
                )
                &&& cli.oauth_token is None && profiles.contains_key(name)
                    ==> config.auth.token.deep_view() == profiles[name].token
                &&& cli.api_url matches Some(url) ==> config.api_url@ == url@
                &&& cli.api_url is None && profiles.contains_key(name) && profiles[name].api_url is Some
                    ==> config.api_url@ == profiles[name].api_url->0
                &&& profiles.contains_key(name) && profiles[name].upload_url is Some
                    ==> config.upload_url@ == profiles[name].upload_url->0
            }
        }),
{
    let profiles = crate::config::profile_views(persisted.profiles);
    let session_name = crate::text::text_of(session);
    let overrides = choose|overrides: ConfigOverrides| #[trigger]
        sets_overrides(cli, overrides) && crate::config::loaded(
            profiles,
            crate::config::selected_name(cli.profile.deep_view(), session_name),
            overrides,
            may_lack_profile(cli.command),
            r,
        );
    assert(sets_overrides(cli, overrides));
    assert(crate::text::text_of(overrides.oauth_token) == cli.oauth_token.deep_view());
    assert(crate::text::text_of(overrides.api_url) == cli.api_url.deep_view());
}

/// Requests carry the token that is given with the command, or else that of the profile in use, and go
/// to the API of that profile. Only commands that run benchmarks can be given a token.
pub proof fn law_requests_carry_the_token(cli: Cli, config: &CodSpeedConfig, r: CodSpeedAPIClient)
    requires
        call_ensures(build_api_client, (&cli, config), r),
    ensures
        r.api_url@ == config.api_url@,
        ({
            let given = match cli.command {
                Commands::Run(args) => args.shared.token.deep_view(),
                Commands::Exec(args) => args.shared.token.deep_view(),
                _ => None,
            };
            &&& given matches Some(token) ==> (r.authentication matches Authentication::RunToken(t)
                && t@ == token)
            &&& given is None && config.auth.token is Some ==> (
            r.authentication matches Authentication::CliLogin(t) && t@ == config.auth.token->0@)
            &&& given is None && config.auth.token is None ==> r.authentication is Tokenless
        }),
{
}

/// A command that uploads results does so to the URL that it is given, or else to that of the profile
/// in use. Everything else that it is given stays, and other commands stay as they are.
pub proof fn law_command_stays_as_given(
    cli: Cli,
    persisted: PersistedConfig,
    session: Option<&str>,
    home: Option<&str>,
    launch: Launch,
)
    requires
        call_ensures(run, (cli, persisted, session, home), Ok(launch)),
    ensures
        match cli.command {
            Commands::Run(args) => launch.command matches Commands::Run(full) && full.command
                == args.command && full.shared.token == args.shared.token && full.shared.base
                == args.shared.base && full.shared.upload_url is Some && (args.shared.upload_url is Some
                ==> full.shared.upload_url->0@ == args.shared.upload_url->0@) && (
            args.shared.upload_url is None ==> full.shared.upload_url->0@ == launch.config.upload_url@),
            Commands::Exec(args) => launch.command matches Commands::Exec(full) && full.command
                == args.command && full.name == args.name && full.walltime_args == args.walltime_args
                && full.shared.token == args.shared.token && full.shared.upload_url is Some && (
            args.shared.upload_url is Some ==> full.shared.upload_url->0@
                == args.shared.upload_url->0@) && (args.shared.upload_url is None
                ==> full.shared.upload_url->0@ == launch.config.upload_url@),
            _ => launch.command == cli.command,
        },
        launch.init_logger <==> !(cli.command is Run || cli.command is Exec || cli.command
            is Internal),
        launch.warning is Some <==> cli.config_name is Some,
{
}

/// A `~` at the start of the directory for tools stands for the home directory, alone or before a slash;
/// any other path stays, as does every path where the home directory is not known.
pub proof fn law_home_directory_is_filled_in(
    cli: Cli,
    persisted: PersistedConfig,
    session: Option<&str>,
    home: Option<&str>,
    launch: Launch,
    rest: Seq<char>,
)
    requires
        call_ensures(run, (cli, persisted, session, home), Ok(launch)),
    ensures
        launch.setup_cache_dir is Some <==> cli.setup_cache_dir is Some,
        cli.setup_cache_dir matches Some(dir) ==> {
            let full = launch.setup_cache_dir->0@;
            &&& dir@ == seq!['~'] && home is Some ==> full == home->0@
            &&& dir@ == seq!['~', '/'] + rest && home is Some ==> full == home->0@ + seq!['/'] + rest
            &&& dir@.len() == 0 || dir@[0] != '~' ==> full == dir@
            &&& dir@.len() > 1 && dir@[1] != '/' && dir@[1] != '\\' ==> full == dir@
            &&& home is None ==> full == dir@
        },
{
    if let Some(dir) = cli.setup_cache_dir {
        if home is Some {
            let h = home->0@;
            if dir@ == seq!['~'] {
                assert(h + dir@.skip(1) =~= h);
            }
            if dir@ == seq!['~', '/'] + rest {
                assert(dir@[0] == '~' && dir@[1] == '/');
                assert(h + dir@.skip(1) =~= h + seq!['/'] + rest);
            }
        }
    }
}

/// This program calls itself by the path that is set for that, or else by its own, and hands all
/// arguments on. It cannot where neither is known.
pub proof fn law_program_calls_itself(
    samply: SamplyArgs,
    self_exe: Option<&str>,
    current_exe: Option<&str>,
    r: Result<CommandBuilder, String>,
)
    requires
        call_ensures(
            InternalCommands::get_command_builder,
            (&InternalCommands::Samply(samply), self_exe, current_exe),
            r,
        ),
    ensures
        r is Err <==> self_exe is None && current_exe is None,
        r matches Ok(command) ==> {
            &&& self_exe matches Some(program) ==> command.program_view() == program@
            &&& self_exe is None ==> command.program_view() == current_exe->0@
            &&& command.args_view().len() == samply.args@.len() + 1
            &&& command.args_view()[0] == "samply"@
            &&& command.args_view().skip(1) == samply.args.deep_view()
        },
{
    if let Ok(command) = r {
        assert(samply.args.deep_view().len() == samply.args@.len());
        assert(command.args_view().skip(1) =~= samply.args.deep_view());
    }
}

} // verus!
