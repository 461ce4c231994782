use synap::configs::{get_false, get_true, InfoConfigs};
use synap::error::SnapshotError;
use synap::info::{MemoryInfo, SystemInfo};
use synap::memory::parse_meminfo;
use synap::osrelease::parse_os_release;
use synap::packages::{get_package_count, get_packages};
use synap::snapshot::LinuxSystemInfo;
use synap::terminal::{
    get_terminal_name, is_known_terminal, parse_stat_ppid, terminal_step, ProcessEntry,
    TerminalResult, TerminalStep,
};
use synap::theme::{or_unknown, scan_config_value};

#[test]
fn meminfo_readings_conserve_total() {
    let m = parse_meminfo(b"MemTotal: 1000 kB\nMemAvailable: 400 kB\n").unwrap();
    assert_eq!(m.total_kb, 1000);
    assert_eq!(m.available_kb, 400);
    assert_eq!(m.used_kb, 600);
    assert_eq!(m.used_kb + m.available_kb, m.total_kb);
}

#[test]
fn meminfo_last_occurrence_wins() {
    let m = parse_meminfo(b"MemTotal: 500 kB\nMemAvailable: 100 kB\nMemTotal: 900 kB\n").unwrap();
    assert_eq!(m.total_kb, 900);
}

#[test]
fn meminfo_errors() {
    assert_eq!(
        parse_meminfo(b"MemAvailable: 1 kB\n").unwrap_err(),
        SnapshotError::MissingMemTotal
    );
    assert_eq!(
        parse_meminfo(b"MemTotal: 10 kB\n").unwrap_err(),
        SnapshotError::MissingMemAvailable
    );
    assert_eq!(
        parse_meminfo(b"MemTotal\nMemAvailable: 1 kB\n").unwrap_err(),
        SnapshotError::MalformedMemInfoLine
    );
    assert_eq!(
        parse_meminfo(b"MemTotal: x kB\nMemAvailable: 1 kB\n").unwrap_err(),
        SnapshotError::InvalidMemValue
    );
    assert_eq!(
        parse_meminfo(b"MemTotal: 0 kB\nMemAvailable: 0 kB\n").unwrap_err(),
        SnapshotError::ZeroMemTotal
    );
    assert_eq!(
        parse_meminfo(b"MemTotal: 5 kB\nMemAvailable: 6 kB\n").unwrap_err(),
        SnapshotError::AvailableExceedsTotal
    );
}

#[test]
fn os_release_parses_keys_and_quotes() {
    let o = parse_os_release(
        b"NAME=\"Ubuntu\"\nPRETTY_NAME=\"Ubuntu 24.04\"\nVERSION=24.04\nID=ubuntu\nID_LIKE=debian\nEXTRA=ignored\n",
    )
    .unwrap();
    assert_eq!(o.name, b"Ubuntu".to_vec());
    assert_eq!(o.pretty_name, b"Ubuntu 24.04".to_vec());
    assert_eq!(o.version, b"24.04".to_vec());
    assert_eq!(o.id, b"ubuntu".to_vec());
    assert_eq!(o.id_like, b"debian".to_vec());
}

#[test]
fn os_release_missing_keys_default_empty() {
    let o = parse_os_release(b"NAME=Arch\n").unwrap();
    assert_eq!(o.name, b"Arch".to_vec());
    assert_eq!(o.pretty_name, b"".to_vec());
    assert_eq!(o.version, b"".to_vec());
}

#[test]
fn os_release_malformed_line_is_fatal() {
    assert_eq!(
        parse_os_release(b"NAME=ok\nbroken line\n").unwrap_err(),
        SnapshotError::MalformedOsReleaseLine
    );
}

#[test]
fn os_release_value_is_second_field_only() {
    let o = parse_os_release(b"NAME=a=b\n").unwrap();
    assert_eq!(o.name, b"a".to_vec());
}

#[test]
fn package_counts_and_corrections() {
    // dpkg counts row markers; apt and friends discount one header line.
    assert_eq!(get_package_count(Some(&b"...".to_vec()), b"."), Some(3));
    assert_eq!(get_package_count(None, b"."), None);
    let c = get_packages(
        Some(&b"..".to_vec()),
        Some(&b"a\nb\n".to_vec()),
        Some(&b"header\nsnap1\n".to_vec()),
        None,
        Some(&b"Listing...\np1\np2\n".to_vec()),
        Some(&b"".to_vec()),
    );
    assert_eq!(c.dpkg, Some(2));
    assert_eq!(c.pacman, Some(2));
    assert_eq!(c.snap, Some(1));
    assert_eq!(c.flatpak, None);
    assert_eq!(c.apt, Some(2));
    assert_eq!(c.dnf, Some(0));
}

#[test]
fn packages_total_is_sum_for_any_presence() {
    let p = synap::snapshot::RawProbes {
        hostname: b"h".to_vec(),
        username: b"u".to_vec(),
        kernel: b"Linux".to_vec(),
        kernel_version: b"6".to_vec(),
        os_release: b"NAME=x\n".to_vec(),
        meminfo: b"MemTotal: 10 kB\nMemAvailable: 5 kB\n".to_vec(),
        arch: b"arm64".to_vec(),
        shell: None,
        desktop_env: vec![],
        gsettings_gtk_theme: None,
        gtk3_settings: None,
        gtk2_settings: None,
        qt5ct_conf: None,
        kdeglobals: None,
        dpkg_output: Some(b"...".to_vec()),
        pacman_output: None,
        snap_output: Some(b"h\na\nb\n".to_vec()),
        flatpak_output: Some(b"f\n".to_vec()),
        apt_output: None,
        dnf_output: None,
        terminal: TerminalResult::NotFound,
    };
    let info = LinuxSystemInfo::new(&p).unwrap();
    assert_eq!(info.dpkg_packages, 3);
    assert_eq!(info.snap_packages, 2);
    assert_eq!(info.flatpak_packages, 1);
    assert_eq!(info.pacman_packages, 0);
    assert_eq!(
        info.packages,
        info.dnf_packages
            + info.apt_packages
            + info.pacman_packages
            + info.dpkg_packages
            + info.snap_packages
            + info.flatpak_packages
    );
    assert_eq!(info.packages, 6);
}

#[test]
fn terminal_walk_finds_middle_ancestor() {
    // A(parent B) -> B(parent C) -> C(parent 1); only B is a terminal.
    let table = vec![
        ProcessEntry { pid: 10, comm: b"bash\n".to_vec(), ppid: 11 },
        ProcessEntry { pid: 11, comm: b"konsole\n".to_vec(), ppid: 12 },
        ProcessEntry { pid: 12, comm: b"systemd\n".to_vec(), ppid: 1 },
    ];
    match get_terminal_name(&table, 10) {
        TerminalResult::Found(name) => assert_eq!(name, b"konsole".to_vec()),
        TerminalResult::NotFound => panic!("expected a terminal"),
    }
}

#[test]
fn terminal_walk_unreadable_chain_is_unknown() {
    let table = vec![
        ProcessEntry { pid: 10, comm: b"bash\n".to_vec(), ppid: 11 },
        ProcessEntry { pid: 11, comm: b"sshd\n".to_vec(), ppid: 1 },
    ];
    assert!(matches!(get_terminal_name(&table, 10), TerminalResult::NotFound));
}

#[test]
fn terminal_walk_is_depth_bounded() {
    // A self-parenting entry cannot loop the walk forever.
    let table = vec![ProcessEntry { pid: 7, comm: b"sh\n".to_vec(), ppid: 7 }];
    assert!(matches!(get_terminal_name(&table, 7), TerminalResult::NotFound));
}

#[test]
fn terminal_step_decisions() {
    assert!(matches!(terminal_step(None, None), TerminalStep::Stop));
    let comm = b"alacritty\n".to_vec();
    match terminal_step(Some(&comm), None) {
        TerminalStep::Found(n) => assert_eq!(n, b"alacritty".to_vec()),
        _ => panic!("expected a terminal"),
    }
    let other = b"bash\n".to_vec();
    let stat = b"10 (bash) S 42 10 10\n".to_vec();
    assert!(matches!(terminal_step(Some(&other), Some(&stat)), TerminalStep::Continue(42)));
    let bad_stat = b"10 (bash) S x\n".to_vec();
    assert!(matches!(terminal_step(Some(&other), Some(&bad_stat)), TerminalStep::Stop));
    assert!(matches!(terminal_step(Some(&other), None), TerminalStep::Stop));
}

#[test]
fn stat_ppid_is_fourth_field() {
    assert_eq!(parse_stat_ppid(b"123 (comm) S 456 789"), Some(456));
    assert_eq!(parse_stat_ppid(b"123 (comm) S"), None);
}

#[test]
fn known_terminals_membership() {
    assert!(is_known_terminal(b"kitty"));
    assert!(is_known_terminal(b"st"));
    assert!(!is_known_terminal(b"bash"));
}

#[test]
fn gtk_theme_prefers_query_tool_output() {
    let out = b" 'Adwaita-dark' \n".to_vec();
    let t = LinuxSystemInfo::get_gtk_theme(Some(&out), None, None);
    assert_eq!(t, b"Adwaita-dark".to_vec());
    // Even an empty successful query wins over the files.
    let empty = b"\n".to_vec();
    let settings = b"gtk-theme-name=FileTheme\n".to_vec();
    assert_eq!(LinuxSystemInfo::get_gtk_theme(Some(&empty), Some(&settings), None), b"".to_vec());
}

#[test]
fn gtk_theme_falls_back_to_files_then_unknown() {
    let gtk3 = b"[Settings]\ngtk-theme-name = Yaru \n".to_vec();
    assert_eq!(LinuxSystemInfo::get_gtk_theme(None, Some(&gtk3), None), b"Yaru".to_vec());
    let gtk2 = b"gtk-theme-name=Old\n".to_vec();
    assert_eq!(LinuxSystemInfo::get_gtk_theme(None, None, Some(&gtk2)), b"Old".to_vec());
    assert_eq!(LinuxSystemInfo::get_gtk_theme(None, None, None), b"Unknown".to_vec());
}

#[test]
fn qt_theme_sources_in_order() {
    let qt5 = b"style=Fusion\n".to_vec();
    let kde = b"widgetStyle=Breeze\n".to_vec();
    assert_eq!(LinuxSystemInfo::get_qt_theme(Some(&qt5), Some(&kde)), b"Fusion".to_vec());
    assert_eq!(LinuxSystemInfo::get_qt_theme(None, Some(&kde)), b"Breeze".to_vec());
    assert_eq!(LinuxSystemInfo::get_qt_theme(None, None), b"Unknown".to_vec());
}

#[test]
fn config_scan_needs_separator() {
    // A line containing the key but no `=` is passed over.
    assert_eq!(
        scan_config_value(b"style\nstyle=QtCurve\n", b"style"),
        Some(b"QtCurve".to_vec())
    );
    assert_eq!(scan_config_value(b"nothing here\n", b"style"), None);
}

#[test]
fn desktop_environment_first_present() {
    let vals = vec![None, Some(b"KDE".to_vec()), Some(b"GNOME".to_vec())];
    assert_eq!(LinuxSystemInfo::get_de(&vals), b"KDE".to_vec());
    assert_eq!(LinuxSystemInfo::get_de(&vec![None, None]), b"Unknown".to_vec());
}

#[test]
fn shell_or_unknown() {
    assert_eq!(or_unknown(Some(&b"/bin/zsh".to_vec())), b"/bin/zsh".to_vec());
    assert_eq!(or_unknown(None), b"Unknown".to_vec());
}

#[test]
fn sysinfo_create_formats_os_name() {
    let si = SystemInfo::create(b"PRETTY_NAME=\"Fedora 40\"\n", b"carol\n").unwrap();
    assert_eq!(si.os_name, b"\"Fedora 40\" (-)".to_vec());
    assert_eq!(si.host_name, b"carol\n".to_vec());
    let si2 = SystemInfo::create(b"PRETTY_NAME=F\nid=fedora\n", b"u").unwrap();
    assert_eq!(si2.os_name, b"F (fedora)".to_vec());
}

#[test]
fn sysinfo_create_errors() {
    assert_eq!(
        SystemInfo::create(b"NAME=x\n", b"u").unwrap_err(),
        SnapshotError::MissingOsPrettyName
    );
    assert_eq!(
        SystemInfo::create(b"junk\n", b"u").unwrap_err(),
        SnapshotError::MalformedOsReleaseLine
    );
}

#[test]
fn memory_info_gauges() {
    let mi = MemoryInfo::create(
        b"MemTotal:       1000 kB\nMemAvailable:    400 kB\nSwapTotal:       200 kB\nSwapFree:        150 kB\n",
    )
    .unwrap();
    assert_eq!(mi.ram_max, 1000);
    assert_eq!(mi.ram_used, 600);
    assert_eq!(mi.swap_max, 200);
    assert_eq!(mi.swap_used, 50);
}

#[test]
fn memory_info_malformed_is_error() {
    assert_eq!(
        MemoryInfo::create(b"MemTotal: 10\n").unwrap_err(),
        SnapshotError::InvalidMemValue
    );
}

#[test]
fn snapshot_mandatory_failures_surface() {
    let mut p = base_probes();
    p.os_release = b"bad\n".to_vec();
    assert_eq!(
        LinuxSystemInfo::new(&p).unwrap_err(),
        SnapshotError::MalformedOsReleaseLine
    );
    let mut p2 = base_probes();
    p2.meminfo = b"MemTotal: 1 kB\n".to_vec();
    assert_eq!(
        LinuxSystemInfo::new(&p2).unwrap_err(),
        SnapshotError::MissingMemAvailable
    );
}

fn base_probes() -> synap::snapshot::RawProbes {
    synap::snapshot::RawProbes {
        hostname: b"h\n".to_vec(),
        username: b"u\n".to_vec(),
        kernel: b"Linux\n".to_vec(),
        kernel_version: b"6\n".to_vec(),
        os_release: b"NAME=x\n".to_vec(),
        meminfo: b"MemTotal: 10 kB\nMemAvailable: 5 kB\n".to_vec(),
        arch: b"x86_64".to_vec(),
        shell: None,
        desktop_env: vec![],
        gsettings_gtk_theme: None,
        gtk3_settings: None,
        gtk2_settings: None,
        qt5ct_conf: None,
        kdeglobals: None,
        dpkg_output: None,
        pacman_output: None,
        snap_output: None,
        flatpak_output: None,
        apt_output: None,
        dnf_output: None,
        terminal: TerminalResult::NotFound,
    }
}

#[test]
fn snapshot_trims_command_newlines() {
    let info = LinuxSystemInfo::new(&base_probes()).unwrap();
    assert_eq!(info.hostname, b"h".to_vec());
    assert_eq!(info.username, b"u".to_vec());
    assert_eq!(info.kernel, b"Linux".to_vec());
    assert_eq!(info.kernel_version, b"6".to_vec());
    assert_eq!(info.system_architecture, b"x86_64".to_vec());
    assert_eq!(info.shell, b"Unknown".to_vec());
    assert_eq!(info.terminal, b"Unknown".to_vec());
}

#[test]
fn configs_defaults() {
    assert!(get_true());
    assert!(!get_false());
    let c = InfoConfigs::new();
    assert!(c.os_name && c.kernel && c.host && c.uptime && c.packages);
    assert!(c.memory_usage && c.disk_usage && c.local_ip);
    assert!(!c.display_size && !c.desktop_environment && !c.cpu_usage && !c.battery);
    assert_eq!(InfoConfigs::default(), c);
}
