use vstd::prelude::*;
use crate::bytes::{count_occurrences, spec_count};

verus! {

/// One optional installed-package count per supported manager;
/// `None` means the manager's listing command was unavailable.
#[derive(Debug)]
pub struct PackageCounts {
    pub dpkg: Option<u64>,
    pub pacman: Option<u64>,
    pub snap: Option<u64>,
    pub flatpak: Option<u64>,
    pub apt: Option<u64>,
    pub dnf: Option<u64>,
}

/// Discounts the one header or summary line that some listing commands
/// print before the packages.
pub open spec fn spec_minus_header(c: nat) -> nat {
    if c == 0 {
        0
    } else {
        (c - 1) as nat
    }
}

/// A manager's count resolved to a concrete number: absent managers count zero.
pub open spec fn spec_resolved(o: Option<u64>) -> int {
    match o {
        None => 0,
        Some(c) => c as int,
    }
}

/// The combined count of the six managers.
pub open spec fn spec_total_packages(p: PackageCounts) -> int {
    spec_resolved(p.dnf) + spec_resolved(p.apt) + spec_resolved(p.pacman) + spec_resolved(p.dpkg)
        + spec_resolved(p.snap) + spec_resolved(p.flatpak)
}

/// How many times `keyword` occurs in a listing command's output, or
/// `None` where the command produced none.
pub fn get_package_count(output: Option<&Vec<u8>>, keyword: &[u8]) -> (r: Option<u64>)
    requires
        keyword@.len() > 0,
    ensures
        r is Some <==> output is Some,
        output matches Some(o) ==> r matches Some(c) && c == spec_count(o@, keyword@),
{
    match output {
        None => None,
        Some(o) => Some(count_occurrences(o.as_slice(), keyword)),
    }
}

fn minus_header(o: Option<u64>) -> (r: Option<u64>)
    ensures
        r is Some <==> o is Some,
        o matches Some(c) ==> r == Some((spec_minus_header(c as nat) as u64)),
{
    match o {
        None => None,
        Some(c) => if c == 0 {
            Some(0)
        } else {
            Some(c - 1)
        },
    }
}

/// Counts each manager's installed packages from its listing output:
/// dpkg by row markers, the others by line ends, with one header line
/// discounted for snap, apt and dnf.
pub fn get_packages(
    dpkg_output: Option<&Vec<u8>>,
    pacman_output: Option<&Vec<u8>>,
    snap_output: Option<&Vec<u8>>,
    flatpak_output: Option<&Vec<u8>>,
    apt_output: Option<&Vec<u8>>,
    dnf_output: Option<&Vec<u8>>,
) -> (r: PackageCounts)
    ensures
        r.dpkg is Some <==> dpkg_output is Some,
        dpkg_output matches Some(o) ==> r.dpkg matches Some(c) && c == spec_count(
            o@,
            seq![46u8],
        ),
        r.pacman is Some <==> pacman_output is Some,
        pacman_output matches Some(o) ==> r.pacman matches Some(c) && c == spec_count(
            o@,
            seq![10u8],
        ),
        r.snap is Some <==> snap_output is Some,
        snap_output matches Some(o) ==> r.snap == Some(
            (spec_minus_header(spec_count(o@, seq![10u8])) as u64),
        ),
        r.flatpak is Some <==> flatpak_output is Some,
        flatpak_output matches Some(o) ==> r.flatpak matches Some(c) && c == spec_count(
            o@,
            seq![10u8],
        ),
        r.apt is Some <==> apt_output is Some,
        apt_output matches Some(o) ==> r.apt == Some(
            (spec_minus_header(spec_count(o@, seq![10u8])) as u64),
        ),
        r.dnf is Some <==> dnf_output is Some,
        dnf_output matches Some(o) ==> r.dnf == Some(
            (spec_minus_header(spec_count(o@, seq![10u8])) as u64),
        ),
{
    let dot: Vec<u8> = vec![46u8];
    let nl: Vec<u8> = vec![10u8];
    proof {
        assert(dot@ =~= seq![46u8]);
        assert(nl@ =~= seq![10u8]);
    }
    let dpkg = get_package_count(dpkg_output, dot.as_slice());
    let pacman = get_package_count(pacman_output, nl.as_slice());
    let snap = minus_header(get_package_count(snap_output, nl.as_slice()));
    let flatpak = get_package_count(flatpak_output, nl.as_slice());
    let apt = minus_header(get_package_count(apt_output, nl.as_slice()));
    let dnf = minus_header(get_package_count(dnf_output, nl.as_slice()));
    PackageCounts { dpkg, pacman, snap, flatpak, apt, dnf }
}

} // verus!
