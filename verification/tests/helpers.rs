use std::io::Write;

use caps::Capability;
use codspeed::executor::config::ExecutorConfig;
use codspeed::executor::helpers::capabilities::{binary_has_capabilities, permitted_caps_from_xattr};
use codspeed::executor::helpers::command::CommandBuilder;
use codspeed::executor::helpers::detect_executable::command_has_executable;
use codspeed::executor::helpers::get_bench_command::get_bench_command;
use codspeed::executor::helpers::harvest_perf_maps_for_pids::{
    harvest_perf_maps_for_pids, perf_map_source,
};
use codspeed::executor::helpers::introspected_golang::setup;
use codspeed::executor::helpers::linux_sysctl::{
    ensure_linux_profiling_sysctls, ensure_sysctl, parse_sysctl_value, profiling_sysctls,
    undo_changes, LinuxSysctl, SysctlError,
};
use codspeed::executor::valgrind::helpers::perf_maps::{
    extract_pid_from_profile_file, harvest_perf_maps, profile_pids,
};

fn mask(caps: &[Capability]) -> u64 {
    caps.iter().fold(0, |acc, c| acc | c.bitmask())
}

/// The value of an extended attribute of the second revision that permits `caps`.
fn vfs_cap_data_v2(caps: &[Capability]) -> Vec<u8> {
    let permitted = mask(caps);
    let mut data = Vec::new();
    data.extend_from_slice(&0x0200_0000u32.to_le_bytes());
    data.extend_from_slice(&(permitted as u32).to_le_bytes());
    data.extend_from_slice(&0u32.to_le_bytes());
    data.extend_from_slice(&((permitted >> 32) as u32).to_le_bytes());
    data.extend_from_slice(&0u32.to_le_bytes());
    data
}

#[test]
fn decodes_permitted_caps_across_both_words() {
    let required = mask(&[
        Capability::CAP_BPF,
        Capability::CAP_PERFMON,
        Capability::CAP_SYS_ADMIN,
        Capability::CAP_DAC_READ_SEARCH,
    ]);
    let permitted = permitted_caps_from_xattr(&vfs_cap_data_v2(&[
        Capability::CAP_BPF,
        Capability::CAP_PERFMON,
        Capability::CAP_SYS_ADMIN,
        Capability::CAP_DAC_READ_SEARCH,
    ]))
    .unwrap();
    assert_eq!(permitted, required);
}

#[test]
fn rejects_unknown_revision_and_truncated_data() {
    assert!(permitted_caps_from_xattr(&[]).is_none());
    assert!(permitted_caps_from_xattr(&0xDEAD_BEEFu32.to_le_bytes()).is_none());
    assert!(permitted_caps_from_xattr(&0x0200_0000u32.to_le_bytes()).is_none());
}

#[test]
fn plain_binary_has_no_capabilities() {
    let mut file = tempfile::NamedTempFile::new().unwrap();
    file.write_all(b"\x7fELF").unwrap();
    let attribute = xattr::get(file.path(), "security.capability").ok().flatten();
    assert!(!binary_has_capabilities(attribute.as_deref(), Capability::CAP_BPF.bitmask()));
}

#[test]
fn missing_path_has_no_capabilities() {
    let path = std::path::Path::new("/nonexistent/codspeed-memtrack");
    let attribute = xattr::get(path, "security.capability").ok().flatten();
    assert!(!binary_has_capabilities(attribute.as_deref(), Capability::CAP_BPF.bitmask()));
}

#[test]
fn binary_needs_all_capabilities() {
    let data = vfs_cap_data_v2(&[Capability::CAP_BPF, Capability::CAP_PERFMON]);
    assert!(binary_has_capabilities(Some(&data), Capability::CAP_BPF.bitmask()));
    assert!(!binary_has_capabilities(
        Some(&data),
        mask(&[Capability::CAP_BPF, Capability::CAP_SYS_ADMIN])
    ));
}

fn config(command: &str) -> ExecutorConfig {
    ExecutorConfig {
        command: command.to_owned(),
        working_directory: None,
        enable_introspection: false,
        enable_profiler: false,
        allow_empty: false,
    }
}

#[test]
fn test_get_bench_command_empty() {
    let config = config("");
    assert!(get_bench_command(&config).is_err());
    assert_eq!(
        get_bench_command(&config).unwrap_err().message(),
        "The bench command is empty"
    );
}

#[test]
fn test_get_bench_command_cargo() {
    let config = config("cargo codspeed bench");
    assert_eq!(get_bench_command(&config).unwrap(), "cargo-codspeed bench");
}

#[test]
fn test_get_bench_command_multiline() {
    let config = config(
        r#"
cargo codspeed bench --features "foo bar"
pnpm vitest bench "my-app"
pytest tests/ --codspeed
"#,
    );
    assert_eq!(
        get_bench_command(&config).unwrap(),
        r#"cargo-codspeed bench --features "foo bar"
pnpm vitest bench "my-app"
pytest tests/ --codspeed"#
    );
}

#[test]
fn matches() {
    let cases: [(&str, &[&str]); 12] = [
        ("java -jar bench.jar", &["java"]),
        ("/usr/bin/java -jar bench.jar", &["java"]),
        ("FOO=bar java -jar bench.jar", &["java"]),
        ("cd /app && gradle bench", &["gradle"]),
        ("cat file | python script.py", &["python"]),
        ("sudo java -jar bench.jar", &["java"]),
        ("(cd /app && java -jar bench.jar)", &["java"]),
        ("setup.sh; java -jar bench.jar", &["java"]),
        ("try_first || java -jar bench.jar", &["java"]),
        ("cargo codspeed bench\npytest tests/ --codspeed", &["cargo"]),
        ("mvn test", &["gradle", "java", "maven", "mvn"]),
        ("./java -jar bench.jar", &["java"]),
    ];
    for (command, names) in cases {
        assert!(command_has_executable(command, names), "{command}");
    }
}

#[test]
fn does_not_match() {
    let cases: [(&str, &[&str]); 4] = [
        ("javascript-runtime run", &["java"]),
        ("/home/user/javascript/run.sh", &["java"]),
        ("scargoship build", &["cargo"]),
        ("node index.js", &["gradle", "java", "maven", "mvn"]),
    ];
    for (command, names) in cases {
        assert!(!command_has_executable(command, names), "{command}");
    }
}

#[test]
fn parses_sysctl_value() {
    assert_eq!(parse_sysctl_value("kernel.kptr_restrict = 0\n").unwrap(), 0);
}

#[test]
fn parses_negative_sysctl_value() {
    assert_eq!(
        parse_sysctl_value("kernel.perf_event_paranoid = -1\n").unwrap(),
        -1
    );
}

#[test]
fn rejects_sysctl_output_without_value_separator() {
    assert!(parse_sysctl_value("kernel.kptr_restrict 0\n").is_err());
}

#[test]
fn tells_apart_what_is_wrong_with_sysctl_output() {
    assert!(matches!(parse_sysctl_value("a 0"), Err(SysctlError::NoValue)));
    assert!(matches!(parse_sysctl_value("a = b"), Err(SysctlError::NotANumber)));
    assert_eq!(parse_sysctl_value("a=+7").unwrap(), 7);
}

#[test]
fn sysctls_are_changed_only_where_they_differ() {
    assert_eq!(ensure_sysctl("kernel.kptr_restrict", 0, 0), None);
    let args = ensure_sysctl("kernel.kptr_restrict", 1, 0).unwrap();
    assert!(args.contains(&"kernel.kptr_restrict=0".to_owned()), "{args:?}");

    let (unchanged, call) = LinuxSysctl::set("kernel.kptr_restrict", 0, 0);
    assert!(call.is_none());
    assert!(!unchanged.is_changed());
    assert!(unchanged.restore().is_none());

    let (changed, call) = LinuxSysctl::set("kernel.kptr_restrict", 2, 0);
    assert!(call.is_some());
    assert!(changed.is_changed());
    assert_eq!(changed.restore(), Some(("kernel.kptr_restrict", 2)));
}

#[test]
fn changes_before_a_failure_are_undone() {
    let changes = ensure_linux_profiling_sysctls(true, &vec![2, 3]);
    assert_eq!(changes.len(), 2);
    assert!(undo_changes(&changes, 0).is_empty());
    assert_eq!(undo_changes(&changes, 1), vec![("kernel.kptr_restrict".to_owned(), 2)]);
    assert_eq!(
        undo_changes(&changes, 9),
        vec![
            ("kernel.kptr_restrict".to_owned(), 2),
            ("kernel.perf_event_paranoid".to_owned(), 3)
        ]
    );
}

#[test]
fn profiling_needs_sysctls_on_linux_only() {
    assert!(profiling_sysctls(false).is_empty());
    let wanted = profiling_sysctls(true);
    assert_eq!(wanted.len(), 2);
    let same: Vec<i64> = wanted.iter().map(|(_, value)| *value).collect();
    assert!(ensure_linux_profiling_sysctls(true, &same).is_empty());
    let other: Vec<i64> = wanted.iter().map(|(_, value)| *value + 1).collect();
    assert_eq!(ensure_linux_profiling_sysctls(true, &other).len(), 2);
    assert!(ensure_linux_profiling_sysctls(false, &vec![]).is_empty());
}

#[test]
fn commands_are_wrapped_from_the_outside() {
    let mut inner = CommandBuilder::new("bash");
    inner.arg("script.sh");
    inner.current_dir("/work");
    let mut sudo = CommandBuilder::new("sudo");
    sudo.arg("-n");
    inner.wrap_with(sudo);
    assert_eq!(inner.as_command_line(), "sudo -n bash script.sh");
    inner.wrap("env", &vec!["A=1".to_owned()]);
    assert_eq!(inner.as_command_line(), "env A=1 sudo -n bash script.sh");
    assert_eq!(inner.program(), "env");
    assert_eq!(inner.directory(), Some("/work"));
    assert_eq!(inner.arguments().len(), 5);
}

#[test]
fn perf_maps_of_existing_files_are_copied() {
    assert_eq!(perf_map_source(12), "/tmp/perf-12.map");
    assert_eq!(
        harvest_perf_maps_for_pids("/profile", &vec![12, 13], &vec![true, false]),
        vec![("/tmp/perf-12.map".to_owned(), "/profile/perf-12.map".to_owned())]
    );
}

#[test]
fn pids_are_read_from_profile_files() {
    assert_eq!(extract_pid_from_profile_file("/p/12.out"), Some(12));
    assert_eq!(extract_pid_from_profile_file("/p/metadata.json"), None);
    let paths = vec!["/p/1.out".to_owned(), "/p/x".to_owned(), "/p/3.out".to_owned()];
    let pids = profile_pids(&paths);
    assert_eq!(pids, vec![1, 3]);
    assert_eq!(
        harvest_perf_maps("/p", &pids, &vec![false, true]),
        vec![("/tmp/perf-3.map".to_owned(), "/p/perf-3.map".to_owned())]
    );
}

#[test]
fn go_script_is_put_below_the_temporary_directory() {
    let place = setup("/tmp");
    assert_eq!(place.folder, "/tmp/codspeed_introspected_go");
    assert_eq!(place.path, "/tmp/codspeed_introspected_go/go");
    assert_eq!(place.mode, 0o755);
}
