//! The configuration of the command line: profiles with credentials and URLs.
//!
//! It is stored under `~/.config/codspeed`. What older versions wrote is brought into the current
//! form when it is loaded, and stored again in that form.
use vstd::prelude::*;

use crate::json::{text_from_json, text_to_json};
use crate::numeral::u64_to_decimal;
use crate::path::join_path;
use crate::shell_session_store::{register, NoParent, SessionKind, SessionPlace, StateWrite};
use crate::text::{clone_text, str_eq};
use crate::text_map::TextMap;

verus! {

pub const DEFAULT_API_URL: &'static str = "https://gql.codspeed.io/";

pub const DEFAULT_UPLOAD_URL: &'static str = "https://api.codspeed.io/upload";

pub const DEFAULT_PROFILE_NAME: &'static str = "default";

/// The version of the form in which the configuration is stored.
pub const CURRENT_CONFIG_VERSION: u32 = 1;

// ---------------------------------------------------------------------------------------------
// The profile of a shell session
// ---------------------------------------------------------------------------------------------

/// What is stored for the shell session to use the profile of a name.
pub fn register_shell_session_profile(
    profile_name: &str,
    place: &SessionPlace,
    parent_pid: Option<i32>,
) -> (r: Result<StateWrite, NoParent>)
    ensures
        match parent_pid {
            Some(pid) => {
                &&& r matches Ok(write)
                &&& write.dir@ == place.root(SessionKind::Profile)
                &&& write.path@ == crate::shell_session_store::state_file(write.dir@, pid)
                &&& write.content@ == crate::json::json_text(profile_name@)
                &&& crate::json::text_in_json(write.content@) == Some(profile_name@)
            },
            None => r is Err,
        },
{
    register(SessionKind::Profile, text_to_json(profile_name), place, parent_pid)
}

/// The profile of the shell session, from what is stored for it, if something is. The outer result
/// is `None` where what is stored is no name.
pub fn load_shell_session_profile(stored: Option<&str>) -> (r: Option<Option<String>>)
    ensures
        match crate::text::text_of(stored) {
            None => r matches Some(profile) && profile is None,
            Some(json) => match crate::json::text_in_json(json) {
                Some(name) => r matches Some(Some(profile)) && profile@ == name,
                None => r is None,
            },
        },
{
    match stored {
        None => Some(None),
        Some(json) => match text_from_json(json) {
            Some(name) => Some(Some(name)),
            None => None,
        },
    }
}

// ---------------------------------------------------------------------------------------------
// Profiles
// ---------------------------------------------------------------------------------------------

#[derive(Debug)]
pub struct AuthConfig {
    pub token: Option<String>,
}

impl DeepView for AuthConfig {
    type V = Option<Seq<char>>;

    open spec fn deep_view(&self) -> Option<Seq<char>> {
        self.token.deep_view()
    }
}

impl AuthConfig {
    /// Whether there is nothing to store.
    pub fn is_empty(&self) -> (r: bool)
        ensures
            r == (self.token is None),
    {
        self.token.is_none()
    }
}

impl Default for AuthConfig {
    fn default() -> (r: Self)
        ensures
            r.deep_view() is None,
    {
        AuthConfig { token: None }
    }
}

impl Clone for AuthConfig {
    fn clone(&self) -> (r: Self)
        ensures
            r.deep_view() == self.deep_view(),
    {
        AuthConfig { token: clone_text(&self.token) }
    }
}

#[derive(Debug)]
pub struct ProfileConfig {
    pub auth: AuthConfig,
    pub api_url: Option<String>,
    pub upload_url: Option<String>,
}

pub struct ProfileView {
    pub token: Option<Seq<char>>,
    pub api_url: Option<Seq<char>>,
    pub upload_url: Option<Seq<char>>,
}

impl DeepView for ProfileConfig {
    type V = ProfileView;

    open spec fn deep_view(&self) -> ProfileView {
        ProfileView {
            token: self.auth.deep_view(),
            api_url: self.api_url.deep_view(),
            upload_url: self.upload_url.deep_view(),
        }
    }
}

/// A profile in which nothing is set.
pub open spec fn empty_profile() -> ProfileView {
    ProfileView { token: None, api_url: None, upload_url: None }
}

impl Default for ProfileConfig {
    fn default() -> (r: Self)
        ensures
            r.deep_view() == empty_profile(),
    {
        ProfileConfig { auth: AuthConfig::default(), api_url: None, upload_url: None }
    }
}

impl Clone for ProfileConfig {
    fn clone(&self) -> (r: Self)
        ensures
            r.deep_view() == self.deep_view(),
    {
        ProfileConfig {
            auth: self.auth.clone(),
            api_url: clone_text(&self.api_url),
            upload_url: clone_text(&self.upload_url),
        }
    }
}

/// The profiles by name.
pub type Profiles = TextMap<ProfileConfig>;

/// The views of profiles.
pub open spec fn profile_views(profiles: Profiles) -> Map<Seq<char>, ProfileView> {
    profiles@.map_values(|p: ProfileConfig| p.deep_view())
}

// ---------------------------------------------------------------------------------------------
// What is stored
// ---------------------------------------------------------------------------------------------

/// What a stored configuration may hold, in all forms that were ever written.
#[derive(Debug)]
pub struct RawConfig {
    pub version: Option<u32>,
    /// Where the token used to be, outside of any profile.
    pub auth: Option<AuthConfig>,
    pub profiles: Profiles,
}

/// What is stored now: the version of the form, and the profiles.
#[derive(Debug)]
pub struct PersistedConfig {
    pub version: u32,
    pub profiles: Profiles,
}

impl PersistedConfig {
    pub open spec fn wf(self) -> bool {
        &&& self.version == CURRENT_CONFIG_VERSION
        &&& self.profiles.wf()
    }

    /// What is written, in the order in which it is.
    pub open spec fn stored(self) -> StoredView {
        StoredView {
            version: self.version,
            profiles: Seq::new(
                self.profiles.keys().len(),
                |i: int|
                    (
                        self.profiles.keys()[i],
                        profile_views(self.profiles)[self.profiles.keys()[i]],
                    ),
            ),
        }
    }
}

/// What is written: the version of the form, and the profiles in the order of their names.
#[verifier::ext_equal]
pub struct StoredView {
    pub version: u32,
    pub profiles: Seq<(Seq<char>, ProfileView)>,
}

impl Default for PersistedConfig {
    fn default() -> (r: Self)
        ensures
            r.wf(),
            r.version == CURRENT_CONFIG_VERSION,
            profile_views(r.profiles) == Map::<Seq<char>, ProfileView>::empty().insert(
                DEFAULT_PROFILE_NAME@,
                empty_profile(),
            ),
    {
        let mut profiles: Profiles = TextMap::new();
        let profile = ProfileConfig::default();
        profiles.insert(DEFAULT_PROFILE_NAME.to_owned(), profile);
        assert(profile_views(profiles) =~= Map::<Seq<char>, ProfileView>::empty().insert(
            DEFAULT_PROFILE_NAME@,
            empty_profile(),
        ));
        PersistedConfig { version: CURRENT_CONFIG_VERSION, profiles }
    }
}

/// Why a configuration cannot be used.
#[derive(Debug, PartialEq, Eq)]
pub enum ConfigError {
    /// It was written in this form, which is newer than the current one.
    NewerSchema(u32),
    /// There is no profile of this name.
    MissingProfile(String),
}

/// What to say of a form that is newer than the current one.
pub open spec fn newer_schema_text(version: u32) -> Seq<char> {
    "Config file was written by a newer version of CodSpeed (schema v"@ + crate::numeral::decimal(
        version as nat,
    ) + ", this CLI supports v"@ + crate::numeral::decimal(CURRENT_CONFIG_VERSION as nat)
        + "). Upgrade the CLI to read it."@
}

/// What to say of a profile that does not exist.
pub open spec fn missing_profile_text(name: Seq<char>) -> Seq<char> {
    "CodSpeed profile `"@ + name + "` does not exist. Run `codspeed profile set "@ + name
        + "` to create it."@
}

/// What to say of a profile that does not exist.
pub fn missing_profile_message(name: &str) -> (r: String)
    ensures
        r@ == missing_profile_text(name@),
{
    let mut text = "CodSpeed profile `".to_owned();
    text.append(name);
    text.append("` does not exist. Run `codspeed profile set ");
    text.append(name);
    text.append("` to create it.");
    text
}

impl ConfigError {
    /// The text of the error.
    pub open spec fn text(self) -> Seq<char> {
        match self {
            ConfigError::NewerSchema(version) => newer_schema_text(version),
            ConfigError::MissingProfile(name) => missing_profile_text(name@),
        }
    }

    /// The text of the error.
    pub fn message(&self) -> (r: String)
        ensures
            r@ == self.text(),
    {
        match self {
            ConfigError::NewerSchema(version) => {
                let mut text =
                    "Config file was written by a newer version of CodSpeed (schema v".to_owned();
                text.append(u64_to_decimal(*version as u64).as_str());
                text.append(", this CLI supports v");
                text.append(u64_to_decimal(CURRENT_CONFIG_VERSION as u64).as_str());
                text.append("). Upgrade the CLI to read it.");
                text
            },
            ConfigError::MissingProfile(name) => missing_profile_message(name.as_str()),
        }
    }
}

/// `profiles` with a default profile, if it was missing.
pub open spec fn with_default(profiles: Map<Seq<char>, ProfileView>) -> Map<Seq<char>, ProfileView> {
    if profiles.contains_key(DEFAULT_PROFILE_NAME@) {
        profiles
    } else {
        profiles.insert(DEFAULT_PROFILE_NAME@, empty_profile())
    }
}

/// `profiles` with `token` in the default profile, unless it has one.
pub open spec fn with_legacy_token(
    profiles: Map<Seq<char>, ProfileView>,
    token: Seq<char>,
) -> Map<Seq<char>, ProfileView> {
    let profile = with_default(profiles)[DEFAULT_PROFILE_NAME@];
    if profile.token is None {
        profiles.insert(DEFAULT_PROFILE_NAME@, ProfileView { token: Some(token), ..profile })
    } else {
        profiles
    }
}

/// The profiles in the current form and whether they were stored in another, or the version of a
/// form that is newer. `token` is the one outside of any profile, which only the form before the
/// first has.
pub open spec fn migrated(
    version: Option<u32>,
    token: Option<Seq<char>>,
    profiles: Map<Seq<char>, ProfileView>,
) -> Result<(Map<Seq<char>, ProfileView>, bool), u32> {
    match version {
        Some(v) => if v == CURRENT_CONFIG_VERSION {
            Ok((with_default(profiles), false))
        } else if v > CURRENT_CONFIG_VERSION {
            Err(v)
        } else {
            Ok((with_default(moved_token(token, profiles)), true))
        },
        None => Ok((with_default(moved_token(token, profiles)), true)),
    }
}

/// `profiles` with the token outside of any profile, if there is one, moved into the default
/// profile.
pub open spec fn moved_token(
    token: Option<Seq<char>>,
    profiles: Map<Seq<char>, ProfileView>,
) -> Map<Seq<char>, ProfileView> {
    match token {
        Some(t) => with_legacy_token(profiles, t),
        None => profiles,
    }
}

/// The token outside of any profile.
pub open spec fn legacy_token(auth: Option<AuthConfig>) -> Option<Seq<char>> {
    match auth {
        Some(a) => a.deep_view(),
        None => None,
    }
}

/// Adds the default profile, if it is missing.
fn ensure_default(profiles: &mut Profiles)
    requires
        old(profiles).wf(),
    ensures
        final(profiles).wf(),
        profile_views(*final(profiles)) == with_default(profile_views(*old(profiles))),
{
    let ghost before = *profiles;
    let empty = ProfileConfig::default();
    let _ = profiles.get_or_insert(DEFAULT_PROFILE_NAME.to_owned(), empty);
    assert(profile_views(*profiles) =~= with_default(profile_views(before)));
}

/// Brings a stored configuration into the current form, and tells whether it was in another and is
/// to be stored again.
///
/// A form that is newer is refused, as storing it in the current form would lose what it adds.
pub fn migrate(raw: RawConfig) -> (r: Result<(PersistedConfig, bool), ConfigError>)
    requires
        raw.profiles.wf(),
    ensures
        match migrated(raw.version, legacy_token(raw.auth), profile_views(raw.profiles)) {
            Ok((profiles, dirty)) => {
                &&& r matches Ok(both)
                &&& both.0.wf()
                &&& both.0.version == CURRENT_CONFIG_VERSION
                &&& profile_views(both.0.profiles) == profiles
                &&& both.1 == dirty
            },
            Err(version) => r matches Err(ConfigError::NewerSchema(v)) && v == version,
        },
{
    let mut profiles = raw.profiles;
    if let Some(version) = raw.version {
        if version == CURRENT_CONFIG_VERSION {
            ensure_default(&mut profiles);
            return Ok((PersistedConfig { version: CURRENT_CONFIG_VERSION, profiles }, false));
        }
        if version > CURRENT_CONFIG_VERSION {
            return Err(ConfigError::NewerSchema(version));
        }
    }
    if let Some(auth) = raw.auth {
        if let Some(token) = auth.token {
            let ghost before = profiles;
            let ghost text = token@;
            let empty = ProfileConfig::default();
            let profile = profiles.get_or_insert(DEFAULT_PROFILE_NAME.to_owned(), empty);
            if profile.auth.token.is_none() {
                profile.auth.token = Some(token);
            }
            assert(with_default(profile_views(profiles)) =~= with_default(
                with_legacy_token(profile_views(before), text),
            ));
        }
    }
    ensure_default(&mut profiles);
    Ok((PersistedConfig { version: CURRENT_CONFIG_VERSION, profiles }, true))
}

/// What is used where nothing is stored, and otherwise what is stored in the current form.
pub fn load_persisted(raw: Option<RawConfig>) -> (r: Result<(PersistedConfig, bool), ConfigError>)
    requires
        raw matches Some(c) ==> c.profiles.wf(),
    ensures
        match raw {
            Some(c) => match migrated(c.version, legacy_token(c.auth), profile_views(c.profiles)) {
                Ok((profiles, dirty)) => {
                    &&& r matches Ok(both)
                    &&& both.0.wf()
                    &&& both.0.version == CURRENT_CONFIG_VERSION
                    &&& profile_views(both.0.profiles) == profiles
                    &&& both.1 == dirty
                },
                Err(version) => r matches Err(ConfigError::NewerSchema(v)) && v == version,
            },
            None => {
                &&& r matches Ok(both)
                &&& both.0.wf()
                &&& both.0.version == CURRENT_CONFIG_VERSION
                &&& profile_views(both.0.profiles) == with_default(
                    Map::<Seq<char>, ProfileView>::empty(),
                )
                &&& !both.1
            },
        },
{
    match raw {
        Some(raw) => migrate(raw),
        None => Ok((PersistedConfig::default(), false)),
    }
}

/// What was brought into the current form is not changed when it is loaded again.
pub proof fn law_migration_is_idempotent(
    version: Option<u32>,
    token: Option<Seq<char>>,
    profiles: Map<Seq<char>, ProfileView>,
    stray: Option<Seq<char>>,
)
    requires
        migrated(version, token, profiles) is Ok,
    ensures
        migrated(Some(CURRENT_CONFIG_VERSION), stray, migrated(version, token, profiles)->Ok_0.0)
            == Ok::<_, u32>((migrated(version, token, profiles)->Ok_0.0, false)),
{
}

/// There always is a default profile, every other profile stays as it is, and a token that the
/// default profile had stays, too.
pub proof fn law_migration_keeps_profiles(
    version: Option<u32>,
    token: Option<Seq<char>>,
    profiles: Map<Seq<char>, ProfileView>,
    name: Seq<char>,
)
    requires
        migrated(version, token, profiles) is Ok,
    ensures
        migrated(version, token, profiles)->Ok_0.0.contains_key(DEFAULT_PROFILE_NAME@),
        name != DEFAULT_PROFILE_NAME@ ==> (migrated(version, token, profiles)->Ok_0.0.contains_key(
            name,
        ) <==> profiles.contains_key(name)),
        name != DEFAULT_PROFILE_NAME@ && profiles.contains_key(name) ==> migrated(
            version,
            token,
            profiles,
        )->Ok_0.0[name] == profiles[name],
        profiles.contains_key(DEFAULT_PROFILE_NAME@) && profiles[DEFAULT_PROFILE_NAME@].token is Some
            ==> migrated(version, token, profiles)->Ok_0.0[DEFAULT_PROFILE_NAME@]
            == profiles[DEFAULT_PROFILE_NAME@],
{
}

/// A configuration is stored again if it was not in the current form, and only then.
pub proof fn law_only_old_forms_are_rewritten(
    version: Option<u32>,
    token: Option<Seq<char>>,
    profiles: Map<Seq<char>, ProfileView>,
)
    requires
        migrated(version, token, profiles) is Ok,
    ensures
        migrated(version, token, profiles)->Ok_0.1 <==> version != Some(CURRENT_CONFIG_VERSION),
{
}

// ---------------------------------------------------------------------------------------------
// Where it is stored
// ---------------------------------------------------------------------------------------------

/// Whether the directory of configurations is known: `XDG_CONFIG_HOME` or `HOME` is set. An empty
/// `XDG_CONFIG_HOME` counts as not set.
pub open spec fn has_config_home(xdg_config_home: Option<Seq<char>>, home: Option<Seq<char>>) -> bool {
    (xdg_config_home matches Some(dir) && dir.len() > 0) || home is Some
}

/// The file of a configuration, under `XDG_CONFIG_HOME`, or under the home directory where that is
/// not set or is empty.
pub open spec fn configuration_file(
    xdg_config_home: Option<Seq<char>>,
    home: Seq<char>,
    config_name: Option<Seq<char>>,
) -> Seq<char> {
    let base = match xdg_config_home {
        Some(dir) => if dir.len() > 0 {
            dir
        } else {
            crate::path::joined_path(home, ".config"@)
        },
        None => crate::path::joined_path(home, ".config"@),
    };
    let dir = crate::path::joined_path(base, "codspeed"@);
    match config_name {
        Some(name) => crate::path::joined_path(dir, name + ".yaml"@),
        None => crate::path::joined_path(dir, "config.yaml"@),
    }
}

/// The file of the configuration of a name, or of that without one. `xdg_config_home` and `home`
/// are the values of `XDG_CONFIG_HOME` and `HOME`, one of which must be set. An empty
/// `XDG_CONFIG_HOME` counts as not set.
pub fn get_configuration_file_path(
    xdg_config_home: Option<&str>,
    home: Option<&str>,
    config_name: Option<&str>,
) -> (r: String)
    requires
        has_config_home(
            crate::text::text_of(xdg_config_home),
            crate::text::text_of(home),
        ),
    ensures
        r@ == configuration_file(
            crate::text::text_of(xdg_config_home),
            match home {
                Some(h) => h@,
                None => seq![],
            },
            crate::text::text_of(config_name),
        ),
{
    proof {
        reveal_strlit("");
        assert(xdg_config_home matches Some(dir) ==> (dir@.len() == 0 <==> dir@ =~= ""@));
    }
    let base = match (xdg_config_home, home) {
        (Some(dir), _) if !str_eq(dir, "") => dir.to_owned(),
        (_, Some(home)) => join_path(home, ".config"),
        _ => String::new(),
    };
    let dir = join_path(base.as_str(), "codspeed");
    match config_name {
        Some(name) => {
            let mut file = name.to_owned();
            file.append(".yaml");
            join_path(dir.as_str(), file.as_str())
        },
        None => join_path(dir.as_str(), "config.yaml"),
    }
}

// ---------------------------------------------------------------------------------------------
// What is used
// ---------------------------------------------------------------------------------------------

/// What the command line sets in place of the values of the profile.
#[derive(Debug, Clone, Copy)]
pub struct ConfigOverrides<'a> {
    pub oauth_token: Option<&'a str>,
    pub api_url: Option<&'a str>,
    pub upload_url: Option<&'a str>,
}

impl<'a> Default for ConfigOverrides<'a> {
    fn default() -> (r: Self)
        ensures
            r.oauth_token is None,
            r.api_url is None,
            r.upload_url is None,
    {
        ConfigOverrides { oauth_token: None, api_url: None, upload_url: None }
    }
}

/// `first`, or else `second`.
pub open spec fn first_of(first: Option<Seq<char>>, second: Option<Seq<char>>) -> Option<Seq<char>> {
    match first {
        Some(text) => Some(text),
        None => second,
    }
}

/// `text`, or else `fallback`.
pub open spec fn text_or(text: Option<Seq<char>>, fallback: Seq<char>) -> Seq<char> {
    match text {
        Some(t) => t,
        None => fallback,
    }
}

fn pick(first: Option<&str>, second: &Option<String>) -> (r: Option<String>)
    ensures
        r.deep_view() == first_of(crate::text::text_of(first), second.deep_view()),
{
    match first {
        Some(text) => Some(text.to_owned()),
        None => clone_text(second),
    }
}

fn pick_or(first: Option<&str>, second: &Option<String>, fallback: &str) -> (r: String)
    ensures
        r@ == text_or(
            first_of(crate::text::text_of(first), second.deep_view()),
            fallback@,
        ),
{
    match pick(first, second) {
        Some(text) => text,
        None => fallback.to_owned(),
    }
}

/// The profile that is used: the one that was asked for, or that of the shell session, or the
/// default one.
pub open spec fn selected_name(asked: Option<Seq<char>>, session: Option<Seq<char>>) -> Seq<char> {
    text_or(first_of(asked, session), DEFAULT_PROFILE_NAME@)
}

/// The configuration that is used: what is stored, and what it amounts to for this run.
#[derive(Debug)]
pub struct CodSpeedConfig {
    pub persisted: PersistedConfig,
    pub auth: AuthConfig,
    pub api_url: String,
    pub upload_url: String,
    pub selected_profile: String,
}

impl CodSpeedConfig {
    pub open spec fn wf(self) -> bool {
        self.persisted.wf()
    }

    /// The profiles that are stored.
    pub open spec fn profiles_view(self) -> Map<Seq<char>, ProfileView> {
        profile_views(self.persisted.profiles)
    }

    /// The version of the form that is stored.
    pub open spec fn version(self) -> u32 {
        self.persisted.version
    }

    /// The name of the profile that is used.
    pub open spec fn selected(self) -> Seq<char> {
        self.selected_profile@
    }

    /// Whether the values are those of the profile `name`, where `overrides` sets no others.
    pub open spec fn resolved(
        self,
        name: Seq<char>,
        profile: ProfileView,
        overrides: ConfigOverrides,
    ) -> bool {
        &&& self.selected() == name
        &&& self.auth.deep_view() == first_of(
            crate::text::text_of(overrides.oauth_token),
            profile.token,
        )
        &&& self.api_url@ == text_or(
            first_of(crate::text::text_of(overrides.api_url), profile.api_url),
            DEFAULT_API_URL@,
        )
        &&& self.upload_url@ == text_or(
            first_of(crate::text::text_of(overrides.upload_url), profile.upload_url),
            DEFAULT_UPLOAD_URL@,
        )
    }

    /// What is stored, with the default values in use.
    pub fn from_persisted(persisted: PersistedConfig) -> (r: Self)
        requires
            persisted.wf(),
        ensures
            r.wf(),
            r.profiles_view() == profile_views(persisted.profiles),
            r.version() == persisted.version,
            r.auth.deep_view() is None,
            r.api_url@ == DEFAULT_API_URL@,
            r.upload_url@ == DEFAULT_UPLOAD_URL@,
            r.selected() == DEFAULT_PROFILE_NAME@,
    {
        CodSpeedConfig {
            persisted,
            auth: AuthConfig::default(),
            api_url: DEFAULT_API_URL.to_owned(),
            upload_url: DEFAULT_UPLOAD_URL.to_owned(),
            selected_profile: DEFAULT_PROFILE_NAME.to_owned(),
        }
    }

    /// What is stored, with the values of the profile in use: that of `profile_name`, or that of
    /// the shell session, or the default one.
    pub fn load_with_profile(
        persisted: PersistedConfig,
        profile_name: Option<&str>,
        session_profile: Option<&str>,
        overrides: ConfigOverrides<'_>,
        allow_missing_profile: bool,
    ) -> (r: Result<Self, ConfigError>)
        requires
            persisted.wf(),
        ensures
            loaded(
                profile_views(persisted.profiles),
                selected_name(
                    crate::text::text_of(profile_name),
                    crate::text::text_of(session_profile),
                ),
                overrides,
                allow_missing_profile,
                r,
            ),
            r matches Ok(config) ==> config.wf() && config.profiles_view() == profile_views(
                persisted.profiles,
            ) && config.version() == persisted.version,
    {
        let mut config = Self::from_persisted(persisted);
        match config.resolve_selected_profile(
            profile_name,
            session_profile,
            overrides,
            allow_missing_profile,
        ) {
            Ok(()) => Ok(config),
            Err(error) => Err(error),
        }
    }

    /// The file to be stored and what goes into it. What is in use in this run is not stored.
    pub fn persist(
        &self,
        xdg_config_home: Option<&str>,
        home: Option<&str>,
        config_name: Option<&str>,
    ) -> (r: (String, &PersistedConfig))
        requires
            self.wf(),
            has_config_home(
            crate::text::text_of(xdg_config_home),
            crate::text::text_of(home),
        ),
        ensures
            r.0@ == configuration_file(
                crate::text::text_of(xdg_config_home),
                match home {
                    Some(h) => h@,
                    None => seq![],
                },
                crate::text::text_of(config_name),
            ),
            *r.1 == self.persisted,
            r.1.version == CURRENT_CONFIG_VERSION,
            profile_views(r.1.profiles) == self.profiles_view(),
    {
        (get_configuration_file_path(xdg_config_home, home, config_name), &self.persisted)
    }

    pub fn selected_profile_name(&self) -> (r: &str)
        ensures
            r@ == self.selected(),
    {
        self.selected_profile.as_str()
    }

    pub fn profiles(&self) -> (r: &Profiles)
        requires
            self.wf(),
        ensures
            *r == self.persisted.profiles,
            r.wf(),
            profile_views(*r) == self.profiles_view(),
    {
        &self.persisted.profiles
    }

    pub fn profile(&self, profile_name: &str) -> (r: Option<&ProfileConfig>)
        requires
            self.wf(),
        ensures
            match r {
                Some(profile) => self.profiles_view().contains_key(profile_name@)
                    && profile.deep_view() == self.profiles_view()[profile_name@],
                None => !self.profiles_view().contains_key(profile_name@),
            },
    {
        self.persisted.profiles.get(profile_name)
    }

    /// The profile of a name, which is made if it was missing.
    pub fn profile_mut(&mut self, profile_name: &str) -> (r: &mut ProfileConfig)
        requires
            old(self).wf(),
        ensures
            r.deep_view() == (if old(self).profiles_view().contains_key(profile_name@) {
                old(self).profiles_view()[profile_name@]
            } else {
                empty_profile()
            }),
            final(self).wf(),
            final(self).profiles_view() == old(self).profiles_view().insert(
                profile_name@,
                final(r).deep_view(),
            ),
            final(self).version() == old(self).version(),
            final(self).auth == old(self).auth,
            final(self).api_url == old(self).api_url,
            final(self).upload_url == old(self).upload_url,
            final(self).selected() == old(self).selected(),
    {
        let empty = ProfileConfig::default();
        self.persisted.profiles.get_or_insert(profile_name.to_owned(), empty)
    }

    /// Takes the values of the profile that is to be used. Without that profile nothing changes,
    /// unless it may be missing.
    pub fn resolve_selected_profile(
        &mut self,
        profile_name: Option<&str>,
        session_profile: Option<&str>,
        overrides: ConfigOverrides<'_>,
        allow_missing_profile: bool,
    ) -> (r: Result<(), ConfigError>)
        requires
            old(self).wf(),
        ensures
            final(self).wf(),
            final(self).profiles_view() == old(self).profiles_view(),
            final(self).version() == old(self).version(),
            ({
                let name = selected_name(
                    crate::text::text_of(profile_name),
                    crate::text::text_of(session_profile),
                );
                let found = old(self).profiles_view().contains_key(name);
                let profile = if found {
                    old(self).profiles_view()[name]
                } else {
                    empty_profile()
                };
                if found || allow_missing_profile {
                    r is Ok && final(self).resolved(name, profile, overrides)
                } else {
                    r matches Err(ConfigError::MissingProfile(n)) && n@ == name && *final(self)
                        == *old(self)
                }
            }),
    {
        let name: String = match profile_name {
            Some(name) => name.to_owned(),
            None => match session_profile {
                Some(name) => name.to_owned(),
                None => DEFAULT_PROFILE_NAME.to_owned(),
            },
        };
        let profile: ProfileConfig = match self.profile(name.as_str()) {
            Some(profile) => profile.clone(),
            None => {
                if !allow_missing_profile {
                    return Err(ConfigError::MissingProfile(name));
                }
                ProfileConfig::default()
            },
        };
        self.selected_profile = name;
        self.auth = AuthConfig { token: pick(overrides.oauth_token, &profile.auth.token) };
        self.api_url = pick_or(overrides.api_url, &profile.api_url, DEFAULT_API_URL);
        self.upload_url = pick_or(overrides.upload_url, &profile.upload_url, DEFAULT_UPLOAD_URL);
        Ok(())
    }
}

/// What is stored depends on the profiles alone: a token or a URL that a run was given in place of
/// that of its profile is not stored, nor which profile it used.
pub proof fn law_overrides_are_not_stored(a: CodSpeedConfig, b: CodSpeedConfig)
    requires
        a.wf(),
        b.wf(),
        a.profiles_view() == b.profiles_view(),
    ensures
        a.persisted.stored() == b.persisted.stored(),
        a.persisted.stored().version == CURRENT_CONFIG_VERSION,
{
    let x = a.persisted.profiles;
    let y = b.persisted.profiles;
    assert forall|name: Seq<char>| x.keys().contains(name) <==> y.keys().contains(name) by {
        assert(x@.contains_key(name) <==> a.profiles_view().contains_key(name));
        assert(y@.contains_key(name) <==> b.profiles_view().contains_key(name));
    }
    crate::text_map::lemma_ascending_is_unique(x.keys(), y.keys());
    assert(a.persisted.stored() =~= b.persisted.stored());
}

/// What loading the profile `name` gives.
pub open spec fn loaded(
    profiles: Map<Seq<char>, ProfileView>,
    name: Seq<char>,
    overrides: ConfigOverrides,
    allow_missing_profile: bool,
    r: Result<CodSpeedConfig, ConfigError>,
) -> bool {
    if profiles.contains_key(name) {
        r matches Ok(config) && config.resolved(name, profiles[name], overrides)
    } else if allow_missing_profile {
        r matches Ok(config) && config.resolved(name, empty_profile(), overrides)
    } else {
        r matches Err(ConfigError::MissingProfile(n)) && n@ == name
    }
}

// ---------------------------------------------------------------------------------------------
// Which values are used
// ---------------------------------------------------------------------------------------------

/// A profile that is asked for by name is the one in use, whatever the shell session says. Without
/// one it is that of the session, and without either the default one.
pub proof fn law_asked_profile_comes_first(
    asked: Seq<char>,
    session: Option<Seq<char>>,
    of_session: Seq<char>,
)
    ensures
        selected_name(Some(asked), session) == asked,
        selected_name(None, Some(of_session)) == of_session,
        selected_name(None, None) == "default"@,
{
}

/// A configuration that is loaded for a profile that is asked for has the values of that profile,
/// whatever the shell session says. It cannot be loaded only where there is no such profile.
pub proof fn law_loads_the_profile_that_is_asked_for(
    persisted: PersistedConfig,
    asked: &str,
    session: Option<&str>,
    overrides: ConfigOverrides<'_>,
    allow_missing: bool,
    r: Result<CodSpeedConfig, ConfigError>,
)
    requires
        call_ensures(
            CodSpeedConfig::load_with_profile,
            (persisted, Some(asked), session, overrides, allow_missing),
            r,
        ),
    ensures
        r is Ok <==> profile_views(persisted.profiles).contains_key(asked@) || allow_missing,
        r matches Err(e) ==> e matches ConfigError::MissingProfile(name) && name@ == asked@,
        r matches Ok(config) ==> config.selected_profile@ == asked@,
        r matches Ok(config) ==> profile_views(config.persisted.profiles) == profile_views(
            persisted.profiles,
        ),
        r matches Ok(config) ==> (profile_views(persisted.profiles).contains_key(asked@)
            && overrides.oauth_token is None) ==> config.auth.token.deep_view() == profile_views(
            persisted.profiles,
        )[asked@].token,
{
}

/// Without a profile that is asked for, a configuration has the values of the profile of the shell
/// session.
pub proof fn law_loads_the_profile_of_the_session(
    persisted: PersistedConfig,
    session: &str,
    overrides: ConfigOverrides<'_>,
    allow_missing: bool,
    r: Result<CodSpeedConfig, ConfigError>,
)
    requires
        call_ensures(
            CodSpeedConfig::load_with_profile,
            (persisted, None, Some(session), overrides, allow_missing),
            r,
        ),
    ensures
        r is Ok <==> profile_views(persisted.profiles).contains_key(session@) || allow_missing,
        r matches Err(e) ==> e matches ConfigError::MissingProfile(name) && name@ == session@,
        r matches Ok(config) ==> config.selected_profile@ == session@,
        r matches Ok(config) ==> (profile_views(persisted.profiles).contains_key(session@)
            && overrides.oauth_token is None) ==> config.auth.token.deep_view() == profile_views(
            persisted.profiles,
        )[session@].token,
{
}

/// What the command line sets comes before what the profile sets, and that before the defaults. A
/// value that is set nowhere is the default one; there is no default token.
pub proof fn law_values_come_from_the_nearest_source(
    config: CodSpeedConfig,
    name: Seq<char>,
    profile: ProfileView,
    overrides: ConfigOverrides<'_>,
)
    requires
        config.resolved(name, profile, overrides),
    ensures
        config.selected_profile@ == name,
        overrides.oauth_token matches Some(t) ==> config.auth.token.deep_view() == Some(t@),
        overrides.oauth_token is None ==> config.auth.token.deep_view() == profile.token,
        overrides.api_url matches Some(u) ==> config.api_url@ == u@,
        overrides.api_url is None && profile.api_url is Some ==> config.api_url@
            == profile.api_url->0,
        overrides.api_url is None && profile.api_url is None ==> config.api_url@
            == "https://gql.codspeed.io/"@,
        overrides.upload_url matches Some(u) ==> config.upload_url@ == u@,
        overrides.upload_url is None && profile.upload_url is Some ==> config.upload_url@
            == profile.upload_url->0,
        overrides.upload_url is None && profile.upload_url is None ==> config.upload_url@
            == "https://api.codspeed.io/upload"@,
{
}

/// A token that an old form has outside of any profile becomes that of the default profile, unless
/// it has one. The URLs of the default profile stay. The current form has no such token: one that
/// stands there is passed over.
pub proof fn law_migration_moves_the_token(
    version: Option<u32>,
    token: Seq<char>,
    profiles: Map<Seq<char>, ProfileView>,
)
    requires
        version matches Some(v) ==> v <= 1,
    ensures
        migrated(version, Some(token), profiles) matches Ok(both) && {
            let before = if profiles.contains_key("default"@) {
                profiles["default"@]
            } else {
                ProfileView { token: None, api_url: None, upload_url: None }
            };
            let after = both.0["default"@];
            &&& both.0.contains_key("default"@)
            &&& after.api_url == before.api_url
            &&& after.upload_url == before.upload_url
            &&& before.token is Some ==> after.token == before.token
            &&& before.token is None && version != Some(1u32) ==> after.token == Some(token)
            &&& before.token is None && version == Some(1u32) ==> after.token is None
        },
{
}

/// Without a token outside of any profile, no token changes.
pub proof fn law_migration_invents_no_token(
    version: Option<u32>,
    profiles: Map<Seq<char>, ProfileView>,
)
    requires
        version matches Some(v) ==> v <= 1,
    ensures
        migrated(version, None, profiles) matches Ok(both) && {
            &&& both.0.contains_key("default"@)
            &&& profiles.contains_key("default"@) ==> both.0 == profiles
            &&& !profiles.contains_key("default"@) ==> both.0["default"@] == (ProfileView {
                token: None,
                api_url: None,
                upload_url: None,
            })
        },
{
}

/// A form that is newer than the current one is refused, and no other is.
pub proof fn law_newer_forms_are_refused(
    version: Option<u32>,
    token: Option<Seq<char>>,
    profiles: Map<Seq<char>, ProfileView>,
)
    ensures
        migrated(version, token, profiles) is Err <==> (version matches Some(v) && v > 1),
        migrated(version, token, profiles) matches Err(v) ==> version == Some(v),
{
}

/// What is stored is brought into the current form as `migrated` says, and where nothing is stored
/// there is an empty default profile that is not stored.
pub proof fn law_loading_migrates(
    raw: RawConfig,
    r: Result<(PersistedConfig, bool), ConfigError>,
    nothing: Result<(PersistedConfig, bool), ConfigError>,
)
    requires
        call_ensures(load_persisted, (Some(raw),), r),
        call_ensures(load_persisted, (None,), nothing),
    ensures
        r is Err <==> (raw.version matches Some(v) && v > 1),
        r matches Err(e) ==> e matches ConfigError::NewerSchema(v) && raw.version == Some(v),
        r matches Ok(both) ==> (both.1 <==> raw.version != Some(1u32)),
        r matches Ok(both) ==> forall|name: Seq<char>|
            #![trigger profile_views(both.0.profiles).contains_key(name)]
            name != "default"@ && profile_views(raw.profiles).contains_key(name)
                ==> profile_views(both.0.profiles).contains_key(name) && profile_views(
                both.0.profiles,
            )[name] == profile_views(raw.profiles)[name],
        nothing matches Ok(both) && !both.1 && profile_views(both.0.profiles).dom() =~= set![
            "default"@,
        ] && profile_views(both.0.profiles)["default"@].token is None,
{
}

/// An empty `XDG_CONFIG_HOME` counts as not set, the home directory is not looked at where it is
/// set, and without it the directory is `.config` in the home directory.
pub proof fn law_config_directory(
    dir: Seq<char>,
    home: Seq<char>,
    other: Seq<char>,
    config_name: Option<Seq<char>>,
)
    ensures
        configuration_file(Some(Seq::empty()), home, config_name) == configuration_file(
            None,
            home,
            config_name,
        ),
        dir.len() > 0 ==> configuration_file(Some(dir), home, config_name) == configuration_file(
            Some(dir),
            other,
            config_name,
        ),
        configuration_file(None, home, config_name) == configuration_file(
            Some(crate::path::joined_path(home, ".config"@)),
            other,
            config_name,
        ),
{
    reveal_strlit(".config");
}

/// A configuration of a name is stored in a file of its own next to the one without a name.
pub proof fn law_named_configurations_are_apart(
    xdg_config_home: Option<Seq<char>>,
    home: Seq<char>,
    a: Seq<char>,
    b: Seq<char>,
)
    requires
        a.len() > 0,
        a[0] != '/',
        b.len() > 0,
        b[0] != '/',
    ensures
        configuration_file(xdg_config_home, home, Some(a)) == configuration_file(
            xdg_config_home,
            home,
            Some(b),
        ) ==> a == b,
        a != "config"@ ==> configuration_file(xdg_config_home, home, Some(a))
            != configuration_file(xdg_config_home, home, None),
        configuration_file(xdg_config_home, home, Some("config"@)) == configuration_file(
            xdg_config_home,
            home,
            None,
        ),
{
    reveal_strlit(".yaml");
    reveal_strlit("config.yaml");
    reveal_strlit("config");
    reveal_strlit("codspeed");
    assert("config"@ + ".yaml"@ =~= "config.yaml"@);
    let base = match xdg_config_home {
        Some(dir) => if dir.len() > 0 {
            dir
        } else {
            crate::path::joined_path(home, ".config"@)
        },
        None => crate::path::joined_path(home, ".config"@),
    };
    let dir = crate::path::joined_path(base, "codspeed"@);
    assert(dir.last() == 'd');
    let fa = configuration_file(xdg_config_home, home, Some(a));
    let fb = configuration_file(xdg_config_home, home, Some(b));
    let fn_ = configuration_file(xdg_config_home, home, None);
    let n = dir.len() as int + 1;
    assert(fa.skip(n) =~= a + ".yaml"@);
    assert(fb.skip(n) =~= b + ".yaml"@);
    assert(fn_.skip(n) =~= "config"@ + ".yaml"@);
    assert((a + ".yaml"@).take((a + ".yaml"@).len() - 5) =~= a);
    assert((b + ".yaml"@).take((b + ".yaml"@).len() - 5) =~= b);
    assert(("config"@ + ".yaml"@).take(("config"@ + ".yaml"@).len() - 5) =~= "config"@);
}

/// The profile that was registered for a shell session is the one that is found in it.
pub proof fn law_registered_profile_is_found(
    name: &str,
    place: &SessionPlace,
    parent_pid: Option<i32>,
    written: Result<StateWrite, NoParent>,
    stored: &str,
    found: Option<Option<String>>,
)
    requires
        call_ensures(register_shell_session_profile, (name, place, parent_pid), written),
        written matches Ok(write) && write.content@ == stored@,
        call_ensures(load_shell_session_profile, (Some(stored),), found),
    ensures
        found matches Some(Some(profile)) && profile@ == name@,
{
}

/// The profile that is asked for is selected, whatever the session says, and the one of the session
/// where none is asked for. A profile that does not exist changes nothing, unless that is allowed.
pub proof fn law_selection_changes_the_configuration(
    config: &mut CodSpeedConfig,
    asked: &str,
    session: Option<&str>,
    of_session: &str,
    by_session: &mut CodSpeedConfig,
    overrides: ConfigOverrides<'_>,
    allow_missing: bool,
    r: Result<(), ConfigError>,
    s: Result<(), ConfigError>,
)
    requires
        call_ensures(
            CodSpeedConfig::resolve_selected_profile,
            (config, Some(asked), session, overrides, allow_missing),
            r,
        ),
        call_ensures(
            CodSpeedConfig::resolve_selected_profile,
            (by_session, None, Some(of_session), overrides, allow_missing),
            s,
        ),
    ensures
        r is Ok <==> old(config).profiles_view().contains_key(asked@) || allow_missing,
        r is Ok ==> final(config).selected_profile@ == asked@,
        r is Ok && overrides.oauth_token is None && old(config).profiles_view().contains_key(asked@)
            ==> final(config).auth.token.deep_view() == old(config).profiles_view()[asked@].token,
        r is Err ==> *final(config) == *old(config),
        final(config).profiles_view() == old(config).profiles_view(),
        s is Ok <==> old(by_session).profiles_view().contains_key(of_session@) || allow_missing,
        s is Ok ==> final(by_session).selected_profile@ == of_session@,
        s is Err ==> *final(by_session) == *old(by_session),
{
}

/// A profile that is changed is the one of its name, which is empty where it did not exist, and no
/// other changes.
pub proof fn law_changed_profile_is_the_named_one(
    config: &mut CodSpeedConfig,
    name: &str,
    other: Seq<char>,
    r: &mut ProfileConfig,
)
    requires
        call_ensures(CodSpeedConfig::profile_mut, (config, name), r),
        other != name@,
    ensures
        old(config).profiles_view().contains_key(name@) ==> old(r).deep_view()
            == old(config).profiles_view()[name@],
        !old(config).profiles_view().contains_key(name@) ==> old(r).deep_view().token is None
            && old(r).deep_view().api_url is None && old(r).deep_view().upload_url is None,
        final(config).profiles_view().contains_key(name@),
        final(config).profiles_view()[name@] == final(r).deep_view(),
        final(config).profiles_view().contains_key(other)
            <==> old(config).profiles_view().contains_key(other),
        old(config).profiles_view().contains_key(other) ==> final(config).profiles_view()[other]
            == old(config).profiles_view()[other],
        final(config).selected_profile@ == old(config).selected_profile@,
{
}

/// A configuration that was just read selects the default profile and goes to the services.
pub proof fn law_read_configuration_has_defaults(persisted: PersistedConfig, r: CodSpeedConfig)
    requires
        call_ensures(CodSpeedConfig::from_persisted, (persisted,), r),
    ensures
        r.selected_profile@ == "default"@,
        r.api_url@ == "https://gql.codspeed.io/"@,
        r.upload_url@ == "https://api.codspeed.io/upload"@,
        r.auth.token is None,
        r.profiles_view() == profile_views(persisted.profiles),
{
}

/// An error tells the profile that is missing, and how to create it, or the form that is too new.
pub proof fn law_errors_tell_what_is_wrong(error: &ConfigError, r: String)
    requires
        call_ensures(ConfigError::message, (error,), r),
    ensures
        *error matches ConfigError::MissingProfile(name) ==> r@ == "CodSpeed profile `"@ + name@
            + "` does not exist. Run `codspeed profile set "@ + name@ + "` to create it."@,
        *error matches ConfigError::NewerSchema(version) ==> ("Config file was written by a newer version of CodSpeed (schema v"@
            + crate::numeral::decimal(version as nat) + ", this CLI supports v"@
            + crate::numeral::decimal(1)).is_prefix_of(r@),
{
    if let ConfigError::NewerSchema(version) = *error {
        let start = "Config file was written by a newer version of CodSpeed (schema v"@
            + crate::numeral::decimal(version as nat) + ", this CLI supports v"@
            + crate::numeral::decimal(1);
        assert(r@.subrange(0, start.len() as int) =~= start);
    }
}

} // verus!
