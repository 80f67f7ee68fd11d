use codspeed::cli::profile::{self, ProfileArgs, ProfileCommands, ProfileOutcome};
use codspeed::cli::{show, use_mode};
use codspeed::config::{
    get_configuration_file_path, load_persisted, load_shell_session_profile, migrate,
    register_shell_session_profile, AuthConfig, CodSpeedConfig, ConfigError, ConfigOverrides,
    PersistedConfig, ProfileConfig, Profiles, RawConfig, CURRENT_CONFIG_VERSION,
    DEFAULT_PROFILE_NAME,
};
use codspeed::runner_mode::{load_shell_session_mode, register_shell_session_mode, RunnerMode};
use codspeed::shell_session_store::{load, SessionKind, SessionPlace};
use serde_yaml::Value;

fn auth_in(value: &Value) -> AuthConfig {
    AuthConfig {
        token: value.get("token").and_then(Value::as_str).map(str::to_owned),
    }
}

fn parse_raw(yaml: &str) -> RawConfig {
    let value: Value = serde_yaml::from_str(yaml).unwrap();
    let mut profiles = Profiles::new();
    if let Some(entries) = value.get("profiles").and_then(Value::as_mapping) {
        for (name, profile) in entries {
            profiles.insert(
                name.as_str().unwrap().to_owned(),
                ProfileConfig {
                    auth: profile.get("auth").map(auth_in).unwrap_or_default(),
                    ..ProfileConfig::default()
                },
            );
        }
    }
    RawConfig {
        version: value.get("version").and_then(Value::as_u64).map(|v| v as u32),
        auth: value.get("auth").map(auth_in),
        profiles,
    }
}

#[test]
fn migrate_v0_with_top_level_auth_token() {
    let (persisted, dirty) = migrate(parse_raw(
        r#"
auth:
  token: old-token
"#,
    ))
    .unwrap();

    assert!(dirty);
    assert_eq!(persisted.version, CURRENT_CONFIG_VERSION);
    assert_eq!(
        persisted
            .profiles
            .get(DEFAULT_PROFILE_NAME)
            .unwrap()
            .auth
            .token
            .as_deref(),
        Some("old-token")
    );
}

#[test]
fn migrate_canonical_is_idempotent() {
    let (persisted, dirty) = migrate(parse_raw(
        r#"
version: 1
profiles:
  default:
    auth:
      token: tok
"#,
    ))
    .unwrap();

    assert!(!dirty);
    assert_eq!(persisted.version, CURRENT_CONFIG_VERSION);
    assert_eq!(
        persisted
            .profiles
            .get(DEFAULT_PROFILE_NAME)
            .unwrap()
            .auth
            .token
            .as_deref(),
        Some("tok")
    );
}

#[test]
fn migrate_preserves_existing_profile_token() {
    let (persisted, dirty) = migrate(parse_raw(
        r#"
auth:
  token: legacy-token
profiles:
  default:
    auth:
      token: profile-token
"#,
    ))
    .unwrap();

    assert!(dirty);
    assert_eq!(
        persisted
            .profiles
            .get(DEFAULT_PROFILE_NAME)
            .unwrap()
            .auth
            .token
            .as_deref(),
        Some("profile-token")
    );
}

#[test]
fn migrate_refuses_newer_schema_version() {
    let err = migrate(parse_raw(
        r#"
version: 999
profiles:
  default: {}
"#,
    ))
    .unwrap_err();
    let msg = err.message();
    assert!(
        msg.contains("newer version") && msg.contains("v999"),
        "unexpected error: {msg}"
    );
}

#[test]
fn resolves_profile_values_with_overrides() {
    let mut config = CodSpeedConfig::from_persisted(PersistedConfig::default());
    let profile = config.profile_mut("staging");
    profile.auth.token = Some("profile-token".into());
    profile.api_url = Some("https://gql.staging.example/".into());
    profile.upload_url = Some("https://api.staging.example/upload".into());

    config
        .resolve_selected_profile(
            Some("staging"),
            None,
            ConfigOverrides {
                oauth_token: Some("override-token"),
                api_url: Some("https://gql.override.example/"),
                upload_url: None,
            },
            false,
        )
        .unwrap();

    assert_eq!(config.selected_profile_name(), "staging");
    assert_eq!(config.auth.token.as_deref(), Some("override-token"));
    assert_eq!(config.api_url, "https://gql.override.example/");
    assert_eq!(config.upload_url, "https://api.staging.example/upload");
}

#[test]
fn legacy_files_are_rewritten_once() {
    let raw = parse_raw("auth:\n  token: legacy-token\nprofiles:\n  staging: {}\n");
    let (persisted, dirty) = load_persisted(Some(raw)).unwrap();
    assert!(dirty);
    assert_eq!(persisted.profiles.len(), 2);
    let token = persisted.profiles.get("default").unwrap().auth.token.as_deref();
    assert_eq!(token, Some("legacy-token"));
    let again = RawConfig {
        version: Some(persisted.version),
        auth: None,
        profiles: persisted.profiles,
    };
    let (_, dirty) = load_persisted(Some(again)).unwrap();
    assert!(!dirty);
    let (fresh, dirty) = load_persisted(None).unwrap();
    assert!(!dirty);
    assert_eq!(fresh.profiles.key_at(0), "default");
}

#[test]
fn missing_profiles_are_errors_unless_allowed() {
    let load_it = |allow: bool| {
        CodSpeedConfig::load_with_profile(
            PersistedConfig::default(),
            None,
            Some("staging"),
            ConfigOverrides::default(),
            allow,
        )
    };
    let error = load_it(false).unwrap_err();
    assert_eq!(error, ConfigError::MissingProfile("staging".to_owned()));
    assert_eq!(
        error.message(),
        "CodSpeed profile `staging` does not exist. Run `codspeed profile set staging` to create it."
    );
    let config = load_it(true).unwrap();
    assert_eq!(config.selected_profile_name(), "staging");
    assert_eq!(config.api_url, "https://gql.codspeed.io/");
    assert_eq!(config.upload_url, "https://api.codspeed.io/upload");
}

#[test]
fn configuration_lies_in_the_configuration_directory() {
    assert_eq!(
        get_configuration_file_path(Some("/xdg"), Some("/home/me"), None),
        "/xdg/codspeed/config.yaml"
    );
    assert_eq!(
        get_configuration_file_path(None, Some("/home/me"), Some("work")),
        "/home/me/.config/codspeed/work.yaml"
    );
    let config = CodSpeedConfig::from_persisted(PersistedConfig::default());
    assert_eq!(
        get_configuration_file_path(Some(""), Some("/home/u"), None),
        "/home/u/.config/codspeed/config.yaml"
    );
    let (path, persisted) = config.persist(None, Some("/home/me"), None);
    assert_eq!(persisted.version, 1);
    assert_eq!(path, "/home/me/.config/codspeed/config.yaml");
    assert_eq!(persisted.version, 1);
}

fn place() -> SessionPlace {
    SessionPlace { xdg_runtime_dir: Some("/run/user/1".to_owned()), temp_dir: "/tmp".to_owned() }
}

#[test]
fn profile_of_the_session_is_read_back() {
    let write = register_shell_session_profile("a \"b\"", &place(), Some(7)).unwrap();
    assert!(write.path.starts_with(&write.dir));
    assert_eq!(write.content, "\"a \\\"b\\\"\"");
    assert_eq!(
        load_shell_session_profile(Some(&write.content)),
        Some(Some("a \"b\"".to_owned()))
    );
    assert_eq!(load_shell_session_profile(None), Some(None));
    assert_eq!(load_shell_session_profile(Some("[]")), None);
    assert_eq!(
        register_shell_session_profile("x", &place(), None).unwrap_err().message(),
        "Could not determine parent PID"
    );
}

#[test]
fn modes_of_the_session_are_read_back() {
    let modes = vec![RunnerMode::Walltime, RunnerMode::Memory];
    let write = register_shell_session_mode(&modes, &place(), Some(7)).unwrap();
    assert_eq!(write.content, "[\"walltime\",\"memory\"]");
    assert_eq!(load_shell_session_mode(Some(&write.content), true), Some(modes));
    assert_eq!(load_shell_session_mode(None, true), Some(vec![]));
    assert_eq!(load_shell_session_mode(Some("[\"other\"]"), true), None);
    assert_eq!(load_shell_session_mode(Some("walltime"), true), None);
}

#[test]
fn sessions_are_found_by_ancestors() {
    let found = load(SessionKind::Mode, &place(), &vec![3, 2, 1], &vec![false, true, true]).unwrap();
    let write = register_shell_session_mode(&vec![], &place(), Some(2)).unwrap();
    assert_eq!(found, write.path);
    assert!(load(SessionKind::Mode, &place(), &vec![3], &vec![false]).is_none());
    let other = load(SessionKind::Profile, &place(), &vec![2], &vec![true]).unwrap();
    assert_ne!(other, found);
}

#[test]
fn mode_names_are_read_back() {
    for mode in [RunnerMode::Simulation, RunnerMode::Walltime, RunnerMode::Memory] {
        assert_eq!(RunnerMode::from_name(mode.as_str(), true), Some(mode));
    }
    assert_eq!(RunnerMode::from_name("Walltime", true), None);
    assert_eq!(RunnerMode::from_name("memory", false), None);
    assert_eq!(RunnerMode::from_name("walltime", false), Some(RunnerMode::Walltime));
    assert_eq!(load_shell_session_mode(Some("[\"memory\"]"), false), None);
    assert_eq!(
        load_shell_session_mode(Some(" [ {\"simulation\" : null}, \"w\\u0061lltime\" ] "), true),
        Some(vec![RunnerMode::Simulation, RunnerMode::Walltime])
    );
    for refused in [
        "[{\"simulation\":null,\"simulation\":null}]",
        "[{\"simulation\":1,\"simulation\":null}]",
        "[{\"simulation\":null,\"walltime\":null}]",
        "[{\"simulation\":1}]",
        "[{}]",
        "[null]",
        "\"simulation\"",
        "[\"simulation\"] x",
    ] {
        assert_eq!(load_shell_session_mode(Some(refused), true), None, "{refused}");
    }
}

#[test]
fn modes_are_shown_and_set() {
    assert_eq!(show::run(&vec![]), "No mode set for this shell session");
    let line = show::run(&vec![RunnerMode::Walltime, RunnerMode::Memory]);
    assert_eq!(
        line,
        format!("{}, {}", RunnerMode::Walltime.label(), RunnerMode::Memory.label())
    );
    let args = use_mode::UseArgs { mode: vec![RunnerMode::Memory] };
    assert!(use_mode::run(&args, &place(), None).is_err());
    assert_eq!(use_mode::run(&args, &place(), Some(3)).unwrap().content, "[\"memory\"]");
}

fn run_profile(config: &mut CodSpeedConfig, command: ProfileCommands) -> ProfileOutcome {
    profile::run(ProfileArgs { command }, config, Some("staging"), &place(), Some(9))
}

#[test]
fn profiles_are_set_listed_shown_and_used() {
    let mut config = CodSpeedConfig::from_persisted(PersistedConfig::default());
    match run_profile(&mut config, ProfileCommands::Use { name: "staging".to_owned() }) {
        ProfileOutcome::Failed(message) => assert!(message.contains("`staging` does not exist")),
        other => panic!("{other:?}"),
    }
    match run_profile(
        &mut config,
        ProfileCommands::SetUrls {
            name: "staging".to_owned(),
            api_url: Some("https://a".to_owned()),
            upload_url: None,
        },
    ) {
        ProfileOutcome::Saved(line) => assert_eq!(line, "Profile `staging` saved"),
        other => panic!("{other:?}"),
    }
    assert_eq!(config.profile("staging").unwrap().api_url.as_deref(), Some("https://a"));
    assert!(config.profile("staging").unwrap().upload_url.is_none());
    match run_profile(&mut config, ProfileCommands::List) {
        ProfileOutcome::Listed(lines) => assert_eq!(lines, vec!["    default", "  * staging"]),
        other => panic!("{other:?}"),
    }
    match run_profile(&mut config, ProfileCommands::Use { name: "staging".to_owned() }) {
        ProfileOutcome::Used(write, line) => {
            assert_eq!(write.content, "\"staging\"");
            assert_eq!(line, "Active CodSpeed profile set to `staging` for this shell session");
        }
        other => panic!("{other:?}"),
    }
    match run_profile(&mut config, ProfileCommands::Show { name: None }) {
        ProfileOutcome::Shown { name, lines } => {
            assert_eq!(name, "default");
            assert_eq!(lines[2], "  authenticated: no");
        }
        other => panic!("{other:?}"),
    }
}

#[test]
fn only_profiles_to_be_shown_must_exist() {
    let args = |command| ProfileArgs { command };
    let shown = args(ProfileCommands::Show { name: Some("a".to_owned()) });
    assert_eq!(profile::load_request(&shown, Some("b")), (Some("a"), false));
    let shown = args(ProfileCommands::Show { name: None });
    assert_eq!(profile::load_request(&shown, Some("b")), (Some("b"), false));
    assert_eq!(profile::load_request(&args(ProfileCommands::List), Some("b")), (None, true));
}
