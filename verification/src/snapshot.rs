use vstd::prelude::*;
use vstd::string::StringSliceAdditionalSpecFns;
use crate::bytes::{lit, remove_byte, spec_count, spec_remove, spec_trim_newlines, trim_newlines};
use crate::error::SnapshotError;
use crate::memory::{parse_meminfo, spec_meminfo_readings};
use crate::num::{format_2dp, spec_2dp, spec_dec, u64_to_dec};
use crate::osrelease::{parse_os_release, spec_os_release};
use crate::packages::{get_packages, spec_minus_header, spec_resolved, spec_total_packages,
    PackageCounts};
use crate::render::{pairs_view, render, spec_render, style_pairs, spec_style_pairs};
use crate::terminal::TerminalResult;
use crate::theme::{spec_de, spec_gtk_theme, spec_or_unknown, spec_qt_theme, or_unknown};

verus! {

/// One run's collected host facts, immutable once built. Fractional
/// quantities are derived from the kB readings when the snapshot is
/// flattened, so every stored field is exact.
#[derive(Debug)]
pub struct LinuxSystemInfo {
    pub hostname: Vec<u8>,
    pub username: Vec<u8>,
    pub os_name: Vec<u8>,
    pub os_version: Vec<u8>,
    pub os_id: Vec<u8>,
    pub os_id_like: Vec<u8>,
    pub os_pretty_name: Vec<u8>,
    pub kernel: Vec<u8>,
    pub kernel_version: Vec<u8>,
    pub system_architecture: Vec<u8>,
    pub desktop_environment: Vec<u8>,
    pub gtk_theme: Vec<u8>,
    pub qt_theme: Vec<u8>,
    pub shell: Vec<u8>,
    pub terminal: Vec<u8>,
    pub packages: u64,
    pub apt_packages: u64,
    pub dpkg_packages: u64,
    pub pacman_packages: u64,
    pub dnf_packages: u64,
    pub snap_packages: u64,
    pub flatpak_packages: u64,
    pub total_memory_kb: u64,
    pub total_memory_mb: u64,
    pub used_memory_kb: u64,
    pub used_memory_mb: u64,
    pub available_memory_kb: u64,
    pub available_memory_mb: u64,
}

/// Everything the probes read or ran, handed in as plain values: file
/// contents, command outputs and environment values, each `None` where
/// its optional source was unavailable.
#[derive(Debug)]
pub struct RawProbes {
    pub hostname: Vec<u8>,
    pub username: Vec<u8>,
    pub kernel: Vec<u8>,
    pub kernel_version: Vec<u8>,
    pub os_release: Vec<u8>,
    pub meminfo: Vec<u8>,
    pub arch: Vec<u8>,
    pub shell: Option<Vec<u8>>,
    pub desktop_env: Vec<Option<Vec<u8>>>,
    pub gsettings_gtk_theme: Option<Vec<u8>>,
    pub gtk3_settings: Option<Vec<u8>>,
    pub gtk2_settings: Option<Vec<u8>>,
    pub qt5ct_conf: Option<Vec<u8>>,
    pub kdeglobals: Option<Vec<u8>>,
    pub dpkg_output: Option<Vec<u8>>,
    pub pacman_output: Option<Vec<u8>>,
    pub snap_output: Option<Vec<u8>>,
    pub flatpak_output: Option<Vec<u8>>,
    pub apt_output: Option<Vec<u8>>,
    pub dnf_output: Option<Vec<u8>>,
    pub terminal: TerminalResult,
}

/// The package counts the six listing outputs resolve to.
pub open spec fn spec_counts_of(p: RawProbes) -> PackageCounts {
    PackageCounts {
        dpkg: match p.dpkg_output {
            None => None,
            Some(o) => Some((spec_count(o@, seq![46u8]) as u64)),
        },
        pacman: match p.pacman_output {
            None => None,
            Some(o) => Some((spec_count(o@, seq![10u8]) as u64)),
        },
        snap: match p.snap_output {
            None => None,
            Some(o) => Some((spec_minus_header(spec_count(o@, seq![10u8])) as u64)),
        },
        flatpak: match p.flatpak_output {
            None => None,
            Some(o) => Some((spec_count(o@, seq![10u8]) as u64)),
        },
        apt: match p.apt_output {
            None => None,
            Some(o) => Some((spec_minus_header(spec_count(o@, seq![10u8])) as u64)),
        },
        dnf: match p.dnf_output {
            None => None,
            Some(o) => Some((spec_minus_header(spec_count(o@, seq![10u8])) as u64)),
        },
    }
}

impl LinuxSystemInfo {
    /// The internal consistency every built snapshot keeps: used plus
    /// available memory is the total, the MB quantities are the kB
    /// quantities in whole MB, and the package total is the sum of the
    /// six manager counts.
    pub open spec fn wf(self) -> bool {
        &&& self.total_memory_kb >= 1
        &&& self.available_memory_kb <= self.total_memory_kb
        &&& self.used_memory_kb == self.total_memory_kb - self.available_memory_kb
        &&& self.total_memory_mb == self.total_memory_kb / 1024
        &&& self.used_memory_mb == self.used_memory_kb / 1024
        &&& self.available_memory_mb == self.available_memory_kb / 1024
        &&& self.packages == self.dnf_packages + self.apt_packages + self.pacman_packages
            + self.dpkg_packages + self.snap_packages + self.flatpak_packages
    }

    /// Builds the snapshot from the probes' raw results. The mandatory
    /// sources must parse; each optional source degrades to its
    /// documented default.
    pub fn new(p: &RawProbes) -> (r: Result<LinuxSystemInfo, SnapshotError>)
        ensures
            match r {
                Err(e) => match spec_os_release(p.os_release@) {
                    Err(e1) => e == e1,
                    Ok(_) => match spec_meminfo_readings(p.meminfo@) {
                        Err(e2) => e == e2,
                        Ok(_) => spec_total_packages(spec_counts_of(*p)) > u64::MAX && e
                            == SnapshotError::PackageCountOverflow,
                    },
                },
                Ok(info) => {
                    &&& info.wf()
                    &&& spec_os_release(p.os_release@) matches Ok(os) && info.os_name@ == os.name
                        && info.os_pretty_name@ == os.pretty_name && info.os_version@ == os.version
                        && info.os_id@ == os.id && info.os_id_like@ == os.id_like
                    &&& spec_meminfo_readings(p.meminfo@) matches Ok(m) && info.total_memory_kb
                        == m.0 && info.available_memory_kb == m.1
                    &&& info.hostname@ == spec_trim_newlines(p.hostname@)
                    &&& info.username@ == spec_trim_newlines(p.username@)
                    &&& info.kernel@ == spec_trim_newlines(p.kernel@)
                    &&& info.kernel_version@ == spec_trim_newlines(p.kernel_version@)
                    &&& info.system_architecture@ == p.arch@
                    &&& info.desktop_environment@ == spec_de(p.desktop_env.deep_view())
                    &&& info.gtk_theme@ == spec_gtk_theme(
                        p.gsettings_gtk_theme.deep_view(),
                        p.gtk3_settings.deep_view(),
                        p.gtk2_settings.deep_view(),
                    )
                    &&& info.qt_theme@ == spec_qt_theme(
                        p.qt5ct_conf.deep_view(),
                        p.kdeglobals.deep_view(),
                    )
                    &&& info.shell@ == spec_or_unknown(p.shell.deep_view())
                    &&& (p.terminal matches TerminalResult::Found(n) ==> info.terminal@ == n@)
                    &&& (p.terminal is NotFound ==> info.terminal@ == "Unknown".spec_bytes())
                    &&& info.dpkg_packages == spec_resolved(spec_counts_of(*p).dpkg)
                    &&& info.pacman_packages == spec_resolved(spec_counts_of(*p).pacman)
                    &&& info.snap_packages == spec_resolved(spec_counts_of(*p).snap)
                    &&& info.flatpak_packages == spec_resolved(spec_counts_of(*p).flatpak)
                    &&& info.apt_packages == spec_resolved(spec_counts_of(*p).apt)
                    &&& info.dnf_packages == spec_resolved(spec_counts_of(*p).dnf)
                    &&& info.packages == spec_total_packages(spec_counts_of(*p))
                },
            },
    {
        let os = match parse_os_release(p.os_release.as_slice()) {
            Ok(os) => os,
            Err(e) => {
                return Err(e);
            },
        };
        let mem = match parse_meminfo(p.meminfo.as_slice()) {
            Ok(m) => m,
            Err(e) => {
                return Err(e);
            },
        };
        let counts = get_packages(
            p.dpkg_output.as_ref(),
            p.pacman_output.as_ref(),
            p.snap_output.as_ref(),
            p.flatpak_output.as_ref(),
            p.apt_output.as_ref(),
            p.dnf_output.as_ref(),
        );
        proof {
            assert(counts == spec_counts_of(*p));
        }
        let dpkg_packages: u64 = counts.dpkg.unwrap_or(0);
        let pacman_packages: u64 = counts.pacman.unwrap_or(0);
        let snap_packages: u64 = counts.snap.unwrap_or(0);
        let flatpak_packages: u64 = counts.flatpak.unwrap_or(0);
        let apt_packages: u64 = counts.apt.unwrap_or(0);
        let dnf_packages: u64 = counts.dnf.unwrap_or(0);
        let total_wide: u128 = dnf_packages as u128 + apt_packages as u128
            + pacman_packages as u128 + dpkg_packages as u128 + snap_packages as u128
            + flatpak_packages as u128;
        if total_wide > u64::MAX as u128 {
            return Err(SnapshotError::PackageCountOverflow);
        }
        let packages: u64 = total_wide as u64;
        let terminal: Vec<u8> = match &p.terminal {
            TerminalResult::Found(n) => vstd::slice::slice_to_vec(n.as_slice()),
            TerminalResult::NotFound => lit("Unknown"),
        };
        Ok(
            LinuxSystemInfo {
                hostname: trim_newlines(p.hostname.as_slice()),
                username: trim_newlines(p.username.as_slice()),
                os_name: os.name,
                os_version: os.version,
                os_id: os.id,
                os_id_like: os.id_like,
                os_pretty_name: os.pretty_name,
                kernel: trim_newlines(p.kernel.as_slice()),
                kernel_version: trim_newlines(p.kernel_version.as_slice()),
                system_architecture: vstd::slice::slice_to_vec(p.arch.as_slice()),
                desktop_environment: Self::get_de(&p.desktop_env),
                gtk_theme: Self::get_gtk_theme(
                    p.gsettings_gtk_theme.as_ref(),
                    p.gtk3_settings.as_ref(),
                    p.gtk2_settings.as_ref(),
                ),
                qt_theme: Self::get_qt_theme(p.qt5ct_conf.as_ref(), p.kdeglobals.as_ref()),
                shell: or_unknown(p.shell.as_ref()),
                terminal,
                packages,
                apt_packages,
                dpkg_packages,
                pacman_packages,
                dnf_packages,
                snap_packages,
                flatpak_packages,
                total_memory_kb: mem.total_kb,
                total_memory_mb: mem.total_kb / 1024,
                used_memory_kb: mem.used_kb,
                used_memory_mb: mem.used_kb / 1024,
                available_memory_kb: mem.available_kb,
                available_memory_mb: mem.available_kb / 1024,
            },
        )
    }
}

/// The snapshot flattened to its placeholder dictionary: string fields
/// with embedded line breaks removed, whole numbers in plain decimal,
/// fractional quantities with exactly two decimals.
pub open spec fn spec_struct_to_map(info: LinuxSystemInfo) -> Seq<(Seq<u8>, Seq<u8>)> {
    spec_text_pairs(info) + spec_number_pairs(info)
}

/// The fifteen text entries of the dictionary.
pub open spec fn spec_text_pairs(info: LinuxSystemInfo) -> Seq<(Seq<u8>, Seq<u8>)> {
    seq![
        ("hostname".spec_bytes(), spec_remove(info.hostname@, 10)),
        ("username".spec_bytes(), spec_remove(info.username@, 10)),
        ("os_name".spec_bytes(), spec_remove(info.os_name@, 10)),
        ("os_version".spec_bytes(), spec_remove(info.os_version@, 10)),
        ("os_id".spec_bytes(), spec_remove(info.os_id@, 10)),
        ("os_id_like".spec_bytes(), spec_remove(info.os_id_like@, 10)),
        ("os_pretty_name".spec_bytes(), spec_remove(info.os_pretty_name@, 10)),
        ("kernel".spec_bytes(), spec_remove(info.kernel@, 10)),
        ("kernel_version".spec_bytes(), spec_remove(info.kernel_version@, 10)),
        ("system_architecture".spec_bytes(), spec_remove(info.system_architecture@, 10)),
        ("desktop_environment".spec_bytes(), spec_remove(info.desktop_environment@, 10)),
        ("gtk_theme".spec_bytes(), spec_remove(info.gtk_theme@, 10)),
        ("qt_theme".spec_bytes(), spec_remove(info.qt_theme@, 10)),
        ("shell".spec_bytes(), spec_remove(info.shell@, 10)),
        ("terminal".spec_bytes(), spec_remove(info.terminal@, 10)),
    ]
}

/// The seventeen numeric entries of the dictionary.
pub open spec fn spec_number_pairs(info: LinuxSystemInfo) -> Seq<(Seq<u8>, Seq<u8>)> {
    seq![
        ("packages".spec_bytes(), spec_dec(info.packages as nat)),
        ("apt_packages".spec_bytes(), spec_dec(info.apt_packages as nat)),
        ("dpkg_packages".spec_bytes(), spec_dec(info.dpkg_packages as nat)),
        ("pacman_packages".spec_bytes(), spec_dec(info.pacman_packages as nat)),
        ("dnf_packages".spec_bytes(), spec_dec(info.dnf_packages as nat)),
        ("snap_packages".spec_bytes(), spec_dec(info.snap_packages as nat)),
        ("flatpak_packages".spec_bytes(), spec_dec(info.flatpak_packages as nat)),
        ("total_memory_kb".spec_bytes(), spec_dec(info.total_memory_kb as nat)),
        ("total_memory_mb".spec_bytes(), spec_dec(info.total_memory_mb as nat)),
        ("total_memory".spec_bytes(), spec_2dp(info.total_memory_kb as int, 1048576)),
        ("used_memory_kb".spec_bytes(), spec_dec(info.used_memory_kb as nat)),
        ("used_memory_mb".spec_bytes(), spec_dec(info.used_memory_mb as nat)),
        ("used_memory".spec_bytes(), spec_2dp(info.used_memory_kb as int, 1048576)),
        ("available_memory_kb".spec_bytes(), spec_dec(info.available_memory_kb as nat)),
        ("available_memory_mb".spec_bytes(), spec_dec(info.available_memory_mb as nat)),
        ("available_memory".spec_bytes(), spec_2dp(info.available_memory_kb as int, 1048576)),
        (
            "memory_usage_percent".spec_bytes(),
            spec_2dp(100 * info.used_memory_kb, info.total_memory_kb as int),
        ),
    ]
}

#[verifier::rlimit(100)]
fn text_pairs(info: &LinuxSystemInfo) -> (r: Vec<(Vec<u8>, Vec<u8>)>)
    ensures
        pairs_view(r@) == spec_text_pairs(*info),
{
    let mut out: Vec<(Vec<u8>, Vec<u8>)> = Vec::new();
    out.push((lit("hostname"), remove_byte(info.hostname.as_slice(), 10)));
    out.push((lit("username"), remove_byte(info.username.as_slice(), 10)));
    out.push((lit("os_name"), remove_byte(info.os_name.as_slice(), 10)));
    out.push((lit("os_version"), remove_byte(info.os_version.as_slice(), 10)));
    out.push((lit("os_id"), remove_byte(info.os_id.as_slice(), 10)));
    out.push((lit("os_id_like"), remove_byte(info.os_id_like.as_slice(), 10)));
    out.push((lit("os_pretty_name"), remove_byte(info.os_pretty_name.as_slice(), 10)));
    out.push((lit("kernel"), remove_byte(info.kernel.as_slice(), 10)));
    out.push((lit("kernel_version"), remove_byte(info.kernel_version.as_slice(), 10)));
    out.push((lit("system_architecture"), remove_byte(info.system_architecture.as_slice(), 10)));
    out.push((lit("desktop_environment"), remove_byte(info.desktop_environment.as_slice(), 10)));
    out.push((lit("gtk_theme"), remove_byte(info.gtk_theme.as_slice(), 10)));
    out.push((lit("qt_theme"), remove_byte(info.qt_theme.as_slice(), 10)));
    out.push((lit("shell"), remove_byte(info.shell.as_slice(), 10)));
    out.push((lit("terminal"), remove_byte(info.terminal.as_slice(), 10)));
    proof {
        assert(pairs_view(out@) =~~= spec_text_pairs(*info));
    }
    out
}

#[verifier::rlimit(100)]
fn number_pairs(info: &LinuxSystemInfo) -> (r: Vec<(Vec<u8>, Vec<u8>)>)
    requires
        info.wf(),
    ensures
        pairs_view(r@) == spec_number_pairs(*info),
{
    let mut out: Vec<(Vec<u8>, Vec<u8>)> = Vec::new();
    out.push((lit("packages"), u64_to_dec(info.packages)));
    out.push((lit("apt_packages"), u64_to_dec(info.apt_packages)));
    out.push((lit("dpkg_packages"), u64_to_dec(info.dpkg_packages)));
    out.push((lit("pacman_packages"), u64_to_dec(info.pacman_packages)));
    out.push((lit("dnf_packages"), u64_to_dec(info.dnf_packages)));
    out.push((lit("snap_packages"), u64_to_dec(info.snap_packages)));
    out.push((lit("flatpak_packages"), u64_to_dec(info.flatpak_packages)));
    out.push((lit("total_memory_kb"), u64_to_dec(info.total_memory_kb)));
    out.push((lit("total_memory_mb"), u64_to_dec(info.total_memory_mb)));
    out.push((lit("total_memory"), format_2dp(info.total_memory_kb as u128, 1048576)));
    out.push((lit("used_memory_kb"), u64_to_dec(info.used_memory_kb)));
    out.push((lit("used_memory_mb"), u64_to_dec(info.used_memory_mb)));
    out.push((lit("used_memory"), format_2dp(info.used_memory_kb as u128, 1048576)));
    out.push((lit("available_memory_kb"), u64_to_dec(info.available_memory_kb)));
    out.push((lit("available_memory_mb"), u64_to_dec(info.available_memory_mb)));
    out.push((lit("available_memory"), format_2dp(info.available_memory_kb as u128, 1048576)));
    out.push(
        (
            lit("memory_usage_percent"),
            format_2dp(
                100u128 * (info.used_memory_kb as u128),
                info.total_memory_kb as u128,
            ),
        ),
    );
    proof {
        assert(pairs_view(out@) =~~= spec_number_pairs(*info));
    }
    out
}

/// Flattens the snapshot into its placeholder dictionary.
#[verifier::rlimit(100)]
pub fn struct_to_map(info: &LinuxSystemInfo) -> (r: Vec<(Vec<u8>, Vec<u8>)>)
    requires
        info.wf(),
    ensures
        pairs_view(r@) == spec_struct_to_map(*info),
{
    let mut out = text_pairs(info);
    let mut nums = number_pairs(info);
    let ghost p1 = out@;
    let ghost p2 = nums@;
    out.append(&mut nums);
    proof {
        assert(pairs_view(p1 + p2) =~~= pairs_view(p1) + pairs_view(p2));
    }
    out
}

/// Renders `template` against the snapshot's dictionary merged with the
/// fixed style table, as one pure substitution pass.
pub fn format_template(template: &[u8], info: &LinuxSystemInfo) -> (r: Vec<u8>)
    requires
        info.wf(),
    ensures
        r@ == spec_render(template@, spec_struct_to_map(*info) + spec_style_pairs()),
{
    let mut pairs = struct_to_map(info);
    let mut styles = style_pairs();
    let ghost p1 = pairs@;
    let ghost p2 = styles@;
    pairs.append(&mut styles);
    proof {
        assert(pairs_view(p1 + p2) =~~= pairs_view(p1) + pairs_view(p2));
    }
    render(template, &pairs)
}

/// Law: in every well-formed snapshot the used and available memory
/// amounts partition the total.
pub proof fn lemma_memory_conservation(info: LinuxSystemInfo)
    requires
        info.wf(),
    ensures
        info.used_memory_kb + info.available_memory_kb == info.total_memory_kb,
{
}

/// Law: in every well-formed snapshot the package total equals the sum
/// of the six manager counts, whichever managers were present.
pub proof fn lemma_packages_total(info: LinuxSystemInfo)
    requires
        info.wf(),
    ensures
        info.packages == info.dnf_packages + info.apt_packages + info.pacman_packages
            + info.dpkg_packages + info.snap_packages + info.flatpak_packages,
{
}

/// Law: the flattened dictionary renders the memory usage share as the
/// exact rational `100 * used / total`, to two decimals.
pub proof fn lemma_usage_percent_entry(info: LinuxSystemInfo)
    requires
        info.wf(),
    ensures
        spec_struct_to_map(info)[31] == (
            "memory_usage_percent".spec_bytes(),
            spec_2dp(100 * info.used_memory_kb, info.total_memory_kb as int),
        ),
{
    assert(spec_struct_to_map(info)[31] == spec_number_pairs(info)[16]);
}

} // verus!
