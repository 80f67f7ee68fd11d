use caps::Capability;
use codspeed::executor::memory::setup::{
    check_granted, ensure_memtrack_capabilities, get_memtrack_status, has_memtrack_capabilities,
    memtrack_required_caps_mask, memtrack_setcap_spec, status_of_version, CapabilityStep,
    ToolVersion, VersionOutput,
};
use codspeed::executor::memory::tunables::{
    mem_available_kib, read_thp_mode, write_root_file, MemoryTunables, RestoreStep, SwapArea,
};
use codspeed::executor::tool_status::ToolInstallStatus;

fn area(path: &str, used_kib: u64, priority: i32) -> SwapArea {
    SwapArea {
        path: path.to_string(),
        used_kib,
        priority,
    }
}

#[test]
fn reads_the_active_thp_mode() {
    // What the file `enabled` holds.
    assert_eq!(
        read_thp_mode("always [madvise] never\n"),
        Some("madvise".to_string())
    );
}

#[test]
fn reports_no_thp_mode_when_none_is_active() {
    // What the file `enabled` holds.
    assert_eq!(read_thp_mode("always madvise never\n"), None);
}

#[test]
fn parses_the_active_swap_areas() {
    let content = "Filename\t\t\t\tType\t\tSize\t\tUsed\t\tPriority\n\
                   /swapfile                               file\t\t8388604\t\t131072\t\t-2\n\
                   /dev/zram0                              partition\t4194300\t\t0\t\t100\n";

    assert_eq!(
        SwapArea::parse_all(content),
        vec![area("/swapfile", 131072, -2), area("/dev/zram0", 0, 100)]
    );
}

#[test]
fn reports_no_swap_area_when_swap_is_off() {
    let content = "Filename\t\t\t\tType\t\tSize\t\tUsed\t\tPriority\n";

    assert_eq!(SwapArea::parse_all(content), vec![]);
}

#[test]
fn reads_the_available_memory() {
    let meminfo = "MemTotal:       16316360 kB\nMemAvailable:    9583756 kB\n";

    assert_eq!(mem_available_kib(meminfo), Some(9583756));
}

#[test]
fn disables_a_swap_file_whose_pages_fit_in_memory() {
    let areas = vec![area("/swapfile", 131072, -2)];

    assert_eq!(
        SwapArea::to_disable(areas, 9583756),
        vec![area("/swapfile", 131072, -2)]
    );
}

#[test]
fn never_disables_zram_swap() {
    let areas = vec![area("/dev/zram0", 0, 100)];

    assert_eq!(SwapArea::to_disable(areas, 9583756), vec![]);
}

#[test]
fn keeps_swap_enabled_when_its_pages_do_not_fit_in_memory() {
    let areas = vec![
        area("/swapfile", 4194304, -2),
        area("/swapfile2", 4194304, -3),
    ];

    assert_eq!(SwapArea::to_disable(areas, 1048576), vec![]);
}

#[test]
fn asks_for_the_priority_the_kernel_did_not_pick() {
    assert_eq!(
        area("/swapfile", 0, 10).swapon_argv(),
        vec!["-p", "10", "/swapfile"]
    );
}

#[test]
fn leaves_a_kernel_assigned_priority_to_be_reassigned() {
    assert_eq!(area("/swapfile", 0, -2).swapon_argv(), vec!["/swapfile"]);
}

#[test]
fn memory_that_is_not_listed_is_not_known() {
    assert_eq!(mem_available_kib("MemTotal:       16316360 kB\n"), None);
    assert_eq!(mem_available_kib("MemAvailable:    many kB\n"), None);
}

#[test]
fn tunables_are_restored_as_they_were() {
    let swaps = "Filename Type Size Used Priority\n/swapfile file 100 10 5\n/dev/zram0 partition 1 0 9\n";
    let meminfo = "MemAvailable: 1000 kB\n";
    let plan = MemoryTunables::plan(
        true,
        Some("[always] madvise never"),
        Some(swaps),
        Some(meminfo),
    )
    .unwrap();
    assert_eq!(plan.swapoff, vec![area("/swapfile", 10, 5)]);
    let (write, before) = plan.thp.as_ref().unwrap();
    assert_eq!(before, "always");
    assert_ne!(write.value, "always");
    assert_eq!(write.path, "/sys/kernel/mm/transparent_hugepage/enabled");

    let tunables = MemoryTunables::apply(plan, true, &vec![true]);
    let steps = tunables.restore();
    assert_eq!(steps.len(), 2);
    assert!(steps.iter().any(|step| match step {
        RestoreStep::SwapOn(args) => *args == ["-p", "5", "/swapfile"],
        RestoreStep::Write(_) => false,
    }));
    assert!(steps.iter().any(|step| match step {
        RestoreStep::Write(write) => write.value == "always",
        RestoreStep::SwapOn(_) => false,
    }));
}

#[test]
fn what_was_not_changed_is_not_restored() {
    assert!(MemoryTunables::plan(false, Some("[always] never"), None, None).is_none());
    let plan = MemoryTunables::plan(true, Some("[always] never"), None, None).unwrap();
    assert!(plan.swapoff.is_empty());
    let tunables = MemoryTunables::apply(plan, false, &vec![]);
    assert!(tunables.restore().is_empty());
}

#[test]
fn root_files_are_written_by_a_shell() {
    let args = write_root_file("/proc/sys/vm/drop_caches", "3");
    assert!(args.iter().any(|arg| arg.contains("/proc/sys/vm/drop_caches")), "{args:?}");
    assert!(args.iter().any(|arg| arg.contains('3')), "{args:?}");
}

fn mask() -> u64 {
    [
        Capability::CAP_DAC_READ_SEARCH,
        Capability::CAP_SYS_ADMIN,
        Capability::CAP_PERFMON,
        Capability::CAP_BPF,
        Capability::CAP_SYS_RESOURCE,
    ]
    .iter()
    .fold(0, |acc, cap| acc | cap.bitmask())
}

fn attribute(permitted: u64) -> Vec<u8> {
    let mut data = Vec::new();
    for word in [0x0200_0000, permitted as u32, 0, (permitted >> 32) as u32, 0] {
        data.extend_from_slice(&word.to_le_bytes());
    }
    data
}

#[test]
fn capabilities_are_those_of_the_kernel() {
    assert_eq!(memtrack_required_caps_mask(), mask());
    let spec = memtrack_setcap_spec();
    assert!(spec.ends_with("+ep"));
    for name in [
        "cap_dac_read_search",
        "cap_sys_admin",
        "cap_perfmon",
        "cap_bpf",
        "cap_sys_resource",
    ] {
        assert!(spec.contains(name), "{spec}");
    }
    assert_eq!(spec.matches(',').count(), 4);
}

#[test]
fn capabilities_are_granted_where_they_are_missing() {
    let all = attribute(mask());
    let some = attribute(mask() & !Capability::CAP_BPF.bitmask());
    assert!(has_memtrack_capabilities(true, Some(&all)));
    assert!(!has_memtrack_capabilities(false, Some(&all)));
    assert!(!has_memtrack_capabilities(true, Some(&some)));
    assert_eq!(
        ensure_memtrack_capabilities(true, Some("/bin/m"), None),
        CapabilityStep::RunningAsRoot
    );
    assert_eq!(ensure_memtrack_capabilities(false, None, None), CapabilityStep::NotFound);
    assert_eq!(
        ensure_memtrack_capabilities(false, Some("/bin/m"), Some(&all)),
        CapabilityStep::AlreadyGranted
    );
    assert_eq!(
        ensure_memtrack_capabilities(false, Some("/bin/m"), Some(&some)),
        CapabilityStep::Grant(vec![memtrack_setcap_spec(), "/bin/m".to_owned()])
    );
    assert!(check_granted("/bin/m", Some(&all)).is_none());
    assert!(check_granted("/bin/m", None).unwrap().starts_with("Capabilities did not stick on /bin/m."));
}

#[test]
fn versions_are_ordered_as_semver_orders_them() {
    let version = |text: &str| ToolVersion::parse(text).unwrap();
    assert!(version("1.2.9").is_before(&version("1.10.0")));
    assert!(version("1.2.3-alpha.1").is_before(&version("1.2.3")));
    assert!(!version("1.2.3").is_before(&version("1.2.3")));
    assert_eq!(version("1.2.3").as_str(), "1.2.3");
    assert!(ToolVersion::parse("1.2").is_none());
}

#[test]
fn status_follows_the_printed_version() {
    let expected = ToolVersion::parse("1.2.2").unwrap();
    let output = |success: bool, text: &str| VersionOutput {
        success,
        stdout: text.as_bytes().to_vec(),
    };
    let good = get_memtrack_status(true, Some(&output(true, "memtrack 1.3.0\n")), &expected);
    assert_eq!(good.tool_name, "codspeed-memtrack");
    assert!(matches!(good.status, ToolInstallStatus::Installed { version } if version == "memtrack 1.3.0"));
    let old = get_memtrack_status(true, Some(&output(true, "memtrack 1.2.1")), &expected);
    assert!(matches!(
        old.status,
        ToolInstallStatus::IncorrectVersion { message, .. }
            if message == "version too old, expecting 1.2.2 or higher"
    ));
    let odd = get_memtrack_status(true, Some(&output(true, "memtrack")), &expected);
    assert!(matches!(
        odd.status,
        ToolInstallStatus::IncorrectVersion { message, .. } if message == "could not parse version"
    ));
    for absent in [
        get_memtrack_status(false, Some(&output(true, "memtrack 1.3.0")), &expected),
        get_memtrack_status(true, Some(&output(false, "memtrack 1.3.0")), &expected),
        get_memtrack_status(true, None, &expected),
    ] {
        assert!(matches!(absent.status, ToolInstallStatus::NotInstalled));
    }
    assert!(matches!(
        status_of_version("memtrack 1.2.2".to_owned(), &expected),
        ToolInstallStatus::Installed { .. }
    ));
}
