use synap::bytes;
use synap::num;
use synap::render;
use synap::snapshot::{LinuxSystemInfo, RawProbes};
use synap::terminal::TerminalResult;

fn probes(template_user: &str) -> RawProbes {
    RawProbes {
        hostname: b"box\n".to_vec(),
        username: template_user.as_bytes().to_vec(),
        kernel: b"Linux\n".to_vec(),
        kernel_version: b"6.1.0\n".to_vec(),
        os_release: b"NAME=\"Debian GNU/Linux\"\nPRETTY_NAME=\"Debian GNU/Linux 12\"\nVERSION=\"12\"\nID=debian\n".to_vec(),
        meminfo: b"MemTotal: 100000 kB\nMemFree: 10000 kB\nMemAvailable: 87655 kB\n".to_vec(),
        arch: b"x86_64".to_vec(),
        shell: Some(b"/bin/bash".to_vec()),
        desktop_env: vec![None, Some(b"GNOME".to_vec())],
        gsettings_gtk_theme: None,
        gtk3_settings: None,
        gtk2_settings: None,
        qt5ct_conf: None,
        kdeglobals: None,
        dpkg_output: None,
        pacman_output: Some(b"a 1\nb 2\n".to_vec()),
        snap_output: None,
        flatpak_output: None,
        apt_output: Some(b"Listing...\npkg1\npkg2\n".to_vec()),
        dnf_output: None,
        terminal: TerminalResult::NotFound,
    }
}

#[test]
fn render_no_placeholders_is_identity() {
    let info = LinuxSystemInfo::new(&probes("alice")).unwrap();
    let t = b"plain text, one { and one } and {single} braces";
    let out = synap::snapshot::format_template(t, &info);
    assert_eq!(out, t.to_vec());
}

#[test]
fn render_bold_username_reset() {
    let info = LinuxSystemInfo::new(&probes("alice")).unwrap();
    let out = synap::snapshot::format_template(b"{{bold}}{{username}}{{reset}}", &info);
    assert_eq!(out, b"\x1b[1malice\x1b[0m".to_vec());
}

#[test]
fn render_unknown_placeholder_passes_through() {
    let info = LinuxSystemInfo::new(&probes("alice")).unwrap();
    let out = synap::snapshot::format_template(b"a {{nope}} b", &info);
    assert_eq!(out, b"a {{nope}} b".to_vec());
}

#[test]
fn render_replaced_text_is_not_rescanned() {
    // A value is substituted once and the output is not expanded again.
    let pairs = vec![(b"k".to_vec(), b"{{bold}}".to_vec())];
    let out = render::render(b"x{{k}}y", &pairs);
    assert_eq!(out, b"x{{bold}}y".to_vec());
}

#[test]
fn render_nested_opener_finds_inner_placeholder() {
    let pairs = vec![(b"bold".to_vec(), b"B".to_vec())];
    let out = render::render(b"{{{{bold}}", &pairs);
    assert_eq!(out, b"{{B".to_vec());
}

#[test]
fn two_decimal_rounding() {
    // 12.345 rounds half-up to two decimals; a whole number keeps none.
    assert_eq!(num::format_2dp(12345, 1000), b"12.35".to_vec());
    assert_eq!(num::u64_to_dec(42), b"42".to_vec());
    assert_eq!(num::format_2dp(1, 3), b"0.33".to_vec());
    assert_eq!(num::format_2dp(200, 2), b"100.00".to_vec());
}

#[test]
fn percent_field_renders_two_decimals() {
    // used = 100000 - 87655 = 12345 kB of 100000 kB: 12.345 percent.
    let info = LinuxSystemInfo::new(&probes("alice")).unwrap();
    let out = synap::snapshot::format_template(b"{{memory_usage_percent}}", &info);
    assert_eq!(out, b"12.35".to_vec());
}

#[test]
fn integer_fields_render_plain() {
    let info = LinuxSystemInfo::new(&probes("alice")).unwrap();
    let out = synap::snapshot::format_template(b"{{total_memory_kb}}/{{total_memory_mb}}", &info);
    assert_eq!(out, b"100000/97".to_vec());
}

#[test]
fn string_fields_lose_embedded_newlines() {
    let mut p = probes("ali\nce");
    p.terminal = TerminalResult::Found(b"konsole".to_vec());
    let info = LinuxSystemInfo::new(&p).unwrap();
    let out = synap::snapshot::format_template(b"{{username}} {{terminal}}", &info);
    assert_eq!(out, b"alice konsole".to_vec());
}

#[test]
fn style_table_has_colors_and_backgrounds() {
    let info = LinuxSystemInfo::new(&probes("u")).unwrap();
    let out = synap::snapshot::format_template(b"{{red}}{{bg_white}}", &info);
    assert_eq!(out, b"\x1b[31m\x1b[47m".to_vec());
}

#[test]
fn default_template_renders() {
    let info = LinuxSystemInfo::new(&probes("alice")).unwrap();
    let t = synap::default_template();
    let out = synap::snapshot::format_template(&t, &info);
    let s = String::from_utf8(out).unwrap();
    assert!(s.contains("alice@box"));
    assert!(s.contains("Debian GNU/Linux (debian)12"));
    assert!(!s.contains("{{"));
}

#[test]
fn lookup_first_match_wins() {
    let pairs = vec![
        (b"k".to_vec(), b"one".to_vec()),
        (b"k".to_vec(), b"two".to_vec()),
    ];
    assert_eq!(render::lookup(&pairs, b"k"), Some(b"one".to_vec()));
    assert_eq!(render::lookup(&pairs, b"absent"), None);
}

#[test]
fn byte_helpers_trim_and_remove() {
    assert_eq!(bytes::trim(b"  a b \t\n"), b"a b".to_vec());
    assert_eq!(bytes::remove_byte(b"'Adw'aita'", b'\''), b"Adwaita".to_vec());
    assert_eq!(bytes::trim_byte(b"\"\"quoted\"", b'"'), b"quoted".to_vec());
    assert_eq!(bytes::trim_newlines(b"host\r\n\n"), b"host".to_vec());
}

#[test]
fn parse_u64_accepts_plus_and_rejects_junk() {
    assert_eq!(num::parse_u64(b"123"), Some(123));
    assert_eq!(num::parse_u64(b"+123"), Some(123));
    assert_eq!(num::parse_u64(b""), None);
    assert_eq!(num::parse_u64(b"+"), None);
    assert_eq!(num::parse_u64(b"12a"), None);
    assert_eq!(num::parse_u64(b"18446744073709551615"), Some(u64::MAX));
    assert_eq!(num::parse_u64(b"18446744073709551616"), None);
}

#[test]
fn line_splitting_matches_lines_semantics() {
    assert_eq!(bytes::split_lines(b""), Vec::<Vec<u8>>::new());
    assert_eq!(bytes::split_lines(b"\n"), vec![b"".to_vec()]);
    assert_eq!(bytes::split_lines(b"a\nb\n"), vec![b"a".to_vec(), b"b".to_vec()]);
    // A carriage return is part of the terminator only before a line feed.
    assert_eq!(bytes::split_lines(b"a\r\nb\r"), vec![b"a".to_vec(), b"b\r".to_vec()]);
}
