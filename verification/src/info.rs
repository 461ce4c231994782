use vstd::prelude::*;
use vstd::string::StringSliceAdditionalSpecFns;
use crate::bytes::{
    begins_with, bytes_eq, ends_with, first_segment, lit, push_all, second_segment,
    spec_begins_with, spec_ends_with, spec_first_segment, spec_lines, spec_second_segment,
    spec_trim, split_lines, trim,
};
use crate::error::SnapshotError;
use crate::num::{all_digits, parse_u64, spec_digit_part, spec_val};
use vstd::slice::{slice_subrange, slice_to_vec};

verus! {

/// A reduced set of host facts: the distribution's display name with
/// its identifier, and who is running the program. The remaining fields
/// start empty.
#[derive(Debug)]
pub struct SystemInfo {
    pub os_name: Vec<u8>,
    pub kernel_version: Vec<u8>,
    pub host_name: Vec<u8>,
    pub uptime: Vec<u8>,
    pub desktop_environment: Vec<u8>,
}

/// The values found so far for the two descriptor keys this collector
/// reads; here values are taken verbatim, quotes kept.
pub struct OsNameTokens {
    pub pretty: Option<Seq<u8>>,
    pub id: Option<Seq<u8>>,
}

pub open spec fn spec_sysinfo_fold(lines: Seq<Seq<u8>>, acc: OsNameTokens) -> Option<OsNameTokens>
    decreases lines.len(),
{
    if lines.len() == 0 {
        Some(acc)
    } else {
        let key = spec_first_segment(lines[0], 61);
        match spec_second_segment(lines[0], 61) {
            None => None,
            Some(val) => spec_sysinfo_fold(
                lines.skip(1),
                OsNameTokens {
                    pretty: if key == "PRETTY_NAME".spec_bytes() {
                        Some(val)
                    } else {
                        acc.pretty
                    },
                    id: if key == "id".spec_bytes() {
                        Some(val)
                    } else {
                        acc.id
                    },
                },
            ),
        }
    }
}

/// The display name this collector derives: the pretty name followed by
/// the lower-case `id` value in parentheses, a dash when that key is
/// absent. The pretty name itself is mandatory.
pub open spec fn spec_sysinfo_os_name(content: Seq<u8>) -> Result<Seq<u8>, SnapshotError> {
    match spec_sysinfo_fold(spec_lines(content), OsNameTokens { pretty: None, id: None }) {
        None => Err(SnapshotError::MalformedOsReleaseLine),
        Some(tk) => match tk.pretty {
            None => Err(SnapshotError::MissingOsPrettyName),
            Some(pn) => Ok(
                pn + " (".spec_bytes() + (match tk.id {
                    Some(i) => i,
                    None => "-".spec_bytes(),
                }) + ")".spec_bytes(),
            ),
        },
    }
}

impl SystemInfo {
    /// Builds the reduced facts from the descriptor text and the
    /// user-name command's output, which is taken as it stands.
    pub fn create(os_release: &[u8], whoami_output: &[u8]) -> (r: Result<SystemInfo, SnapshotError>)
        ensures
            match r {
                Ok(si) => spec_sysinfo_os_name(os_release@) == Ok::<Seq<u8>, SnapshotError>(
                    si.os_name@,
                ) && si.host_name@ == whoami_output@ && si.kernel_version@.len() == 0
                    && si.uptime@.len() == 0 && si.desktop_environment@.len() == 0,
                Err(e) => spec_sysinfo_os_name(os_release@) == Err::<Seq<u8>, SnapshotError>(e),
            },
    {
        let lines = split_lines(os_release);
        let ghost lv = spec_lines(os_release@);
        let mut pretty: Option<Vec<u8>> = None;
        let mut id: Option<Vec<u8>> = None;
        proof {
            assert(lv.skip(0) =~= lv);
        }
        let key_pretty = lit("PRETTY_NAME");
        let key_id = lit("id");
        let mut k: usize = 0;
        while k < lines.len()
            invariant
                k <= lines@.len(),
                lines.deep_view() == lv,
                lv == spec_lines(os_release@),
                key_pretty@ == "PRETTY_NAME".spec_bytes(),
                key_id@ == "id".spec_bytes(),
                spec_sysinfo_fold(
                    lv.skip(k as int),
                    OsNameTokens { pretty: pretty.deep_view(), id: id.deep_view() },
                ) == spec_sysinfo_fold(lv, OsNameTokens { pretty: None, id: None }),
            decreases lines.len() - k,
        {
            proof {
                assert(lv.skip(k as int)[0] == lines@[k as int]@);
                assert(lv.skip(k as int).skip(1) =~= lv.skip(k + 1));
            }
            let line = &lines[k];
            let key = first_segment(line.as_slice(), 61);
            let ghost old_acc = OsNameTokens { pretty: pretty.deep_view(), id: id.deep_view() };
            let ghost sk = spec_first_segment(lv.skip(k as int)[0], 61);
            match second_segment(line.as_slice(), 61) {
                None => {
                    proof {
                        assert(spec_sysinfo_fold(lv.skip(k as int), old_acc) is None);
                    }
                    return Err(SnapshotError::MalformedOsReleaseLine);
                },
                Some(val) => {
                    if bytes_eq(key.as_slice(), key_pretty.as_slice()) {
                        pretty = Some(slice_to_vec(val.as_slice()));
                    }
                    if bytes_eq(key.as_slice(), key_id.as_slice()) {
                        id = Some(slice_to_vec(val.as_slice()));
                    }
                    proof {
                        let new_acc = OsNameTokens { pretty: pretty.deep_view(), id: id.deep_view() };
                        assert(val.deep_view() =~= val@);
                        assert(new_acc == OsNameTokens {
                            pretty: if sk == "PRETTY_NAME".spec_bytes() {
                                Some(val@)
                            } else {
                                old_acc.pretty
                            },
                            id: if sk == "id".spec_bytes() {
                                Some(val@)
                            } else {
                                old_acc.id
                            },
                        });
                        assert(spec_sysinfo_fold(lv.skip(k as int), old_acc)
                            == spec_sysinfo_fold(lv.skip(k + 1), new_acc));
                    }
                },
            }
            k += 1;
        }
        proof {
            assert(lv.skip(k as int).len() == 0);
        }
        let pn = match &pretty {
            None => {
                return Err(SnapshotError::MissingOsPrettyName);
            },
            Some(pn) => {
                proof {
                    assert(pn.deep_view() =~= pn@);
                }
                pn
            },
        };
        let mut os_name: Vec<u8> = Vec::new();
        push_all(&mut os_name, pn.as_slice());
        let open_paren = lit(" (");
        push_all(&mut os_name, open_paren.as_slice());
        match &id {
            Some(i) => {
                proof {
                    assert(i.deep_view() =~= i@);
                }
                push_all(&mut os_name, i.as_slice());
            },
            None => {
                let dash = lit("-");
                push_all(&mut os_name, dash.as_slice());
            },
        }
        let close_paren = lit(")");
        push_all(&mut os_name, close_paren.as_slice());
        Ok(
            SystemInfo {
                os_name,
                kernel_version: Vec::new(),
                host_name: slice_to_vec(whoami_output),
                uptime: Vec::new(),
                desktop_environment: Vec::new(),
            },
        )
    }
}

/// The memory gauges a second, line-prefix-driven reading of the
/// kernel's memory status yields, in kB as the file reports them.
#[derive(Debug)]
pub struct MemoryInfo {
    pub ram_max: i32,
    pub ram_used: i32,
    pub swap_max: i32,
    pub swap_used: i32,
}

/// The mathematical shadow of `MemoryInfo`.
pub struct MemoryInfoView {
    pub ram_max: int,
    pub ram_used: int,
    pub swap_max: int,
    pub swap_used: int,
}

impl View for MemoryInfo {
    type V = MemoryInfoView;

    open spec fn view(&self) -> MemoryInfoView {
        MemoryInfoView {
            ram_max: self.ram_max as int,
            ram_used: self.ram_used as int,
            swap_max: self.swap_max as int,
            swap_used: self.swap_used as int,
        }
    }
}

/// The number a prefixed line carries: everything after the first
/// `plen` bytes must end in " kB"; what remains, trimmed, must be a
/// plain decimal that a 32-bit signed count can hold.
pub open spec fn spec_kb_field(line: Seq<u8>, plen: int) -> Option<int> {
    if line.len() < plen {
        None
    } else {
        let rest = line.skip(plen);
        if !spec_ends_with(rest, seq![32u8, 107u8, 66u8]) {
            None
        } else {
            let t = spec_digit_part(spec_trim(rest.take(rest.len() - 3)));
            if t.len() > 0 && all_digits(t) && spec_val(t) <= i32::MAX {
                Some(spec_val(t))
            } else {
                None
            }
        }
    }
}

fn parse_kb_field(line: &[u8], plen: usize) -> (r: Option<i32>)
    ensures
        match r {
            Some(v) => spec_kb_field(line@, plen as int) == Some(v as int) && v >= 0,
            None => spec_kb_field(line@, plen as int) is None,
        },
{
    if line.len() < plen {
        return None;
    }
    let rest = slice_subrange(line, plen, line.len());
    proof {
        assert(rest@ =~= line@.skip(plen as int));
    }
    let suffix: Vec<u8> = vec![32u8, 107u8, 66u8];
    proof {
        assert(suffix@ =~= seq![32u8, 107u8, 66u8]);
    }
    if !ends_with(rest, suffix.as_slice()) {
        return None;
    }
    let core = trim(slice_subrange(rest, 0, rest.len() - 3));
    proof {
        assert(rest@.subrange(0, rest@.len() - 3) =~= rest@.take(rest@.len() - 3));
    }
    match parse_u64(core.as_slice()) {
        None => {
            proof {
                let t = spec_digit_part(core@);
                if t.len() > 0 && all_digits(t) {
                    crate::num::lemma_val_nonneg(t);
                }
            }
            None
        },
        Some(v) => {
            proof {
                let t = spec_digit_part(core@);
                crate::num::lemma_val_nonneg(t);
            }
            if v <= i32::MAX as u64 {
                Some(v as i32)
            } else {
                None
            }
        },
    }
}

pub open spec fn spec_mi_zero() -> MemoryInfoView {
    MemoryInfoView { ram_max: 0, ram_used: 0, swap_max: 0, swap_used: 0 }
}

/// Reads the status lines in order by their prefixes: the total is
/// recorded as read, the used amounts as the difference between the
/// total recorded so far and the free amount on the line.
pub open spec fn spec_mi_fold(lines: Seq<Seq<u8>>, acc: MemoryInfoView) -> Option<MemoryInfoView>
    decreases lines.len(),
{
    if lines.len() == 0 {
        Some(acc)
    } else {
        let line = lines[0];
        if spec_begins_with(line, "MemTotal".spec_bytes()) {
            match spec_kb_field(line, 9) {
                None => None,
                Some(v) => spec_mi_fold(lines.skip(1), MemoryInfoView { ram_max: v, ..acc }),
            }
        } else if spec_begins_with(line, "MemAvailable".spec_bytes()) {
            match spec_kb_field(line, 13) {
                None => None,
                Some(v) => spec_mi_fold(
                    lines.skip(1),
                    MemoryInfoView { ram_used: acc.ram_max - v, ..acc },
                ),
            }
        } else if spec_begins_with(line, "SwapTotal".spec_bytes()) {
            match spec_kb_field(line, 10) {
                None => None,
                Some(v) => spec_mi_fold(lines.skip(1), MemoryInfoView { swap_max: v, ..acc }),
            }
        } else if spec_begins_with(line, "SwapFree".spec_bytes()) {
            match spec_kb_field(line, 9) {
                None => None,
                Some(v) => spec_mi_fold(
                    lines.skip(1),
                    MemoryInfoView { swap_used: acc.swap_max - v, ..acc },
                ),
            }
        } else {
            spec_mi_fold(lines.skip(1), acc)
        }
    }
}

impl MemoryInfo {
    /// Builds the gauges from the memory-status text.
    pub fn create(content: &[u8]) -> (r: Result<MemoryInfo, SnapshotError>)
        ensures
            match r {
                Ok(mi) => spec_mi_fold(spec_lines(content@), spec_mi_zero()) == Some(mi@),
                Err(e) => spec_mi_fold(spec_lines(content@), spec_mi_zero()) is None && e
                    == SnapshotError::InvalidMemValue,
            },
    {
        let lines = split_lines(content);
        let ghost lv = spec_lines(content@);
        let mut mi = MemoryInfo { ram_max: 0, ram_used: 0, swap_max: 0, swap_used: 0 };
        proof {
            assert(lv.skip(0) =~= lv);
            assert(mi@ == spec_mi_zero());
        }
        let p_mem_total = lit("MemTotal");
        let p_mem_avail = lit("MemAvailable");
        let p_swap_total = lit("SwapTotal");
        let p_swap_free = lit("SwapFree");
        let mut k: usize = 0;
        while k < lines.len()
            invariant
                k <= lines@.len(),
                lines.deep_view() == lv,
                lv == spec_lines(content@),
                p_mem_total@ == "MemTotal".spec_bytes(),
                p_mem_avail@ == "MemAvailable".spec_bytes(),
                p_swap_total@ == "SwapTotal".spec_bytes(),
                p_swap_free@ == "SwapFree".spec_bytes(),
                0 <= mi.ram_max,
                0 <= mi.swap_max,
                spec_mi_fold(lv.skip(k as int), mi@) == spec_mi_fold(lv, spec_mi_zero()),
            decreases lines.len() - k,
        {
            proof {
                assert(lv.skip(k as int)[0] == lines@[k as int]@);
                assert(lv.skip(k as int).skip(1) =~= lv.skip(k + 1));
            }
            let line = &lines[k];
            let ghost old_mi = mi@;
            if begins_with(line.as_slice(), p_mem_total.as_slice()) {
                match parse_kb_field(line.as_slice(), 9) {
                    None => {
                        return Err(SnapshotError::InvalidMemValue);
                    },
                    Some(v) => {
                        mi.ram_max = v;
                    },
                }
            } else if begins_with(line.as_slice(), p_mem_avail.as_slice()) {
                match parse_kb_field(line.as_slice(), 13) {
                    None => {
                        return Err(SnapshotError::InvalidMemValue);
                    },
                    Some(v) => {
                        mi.ram_used = mi.ram_max - v;
                    },
                }
            } else if begins_with(line.as_slice(), p_swap_total.as_slice()) {
                match parse_kb_field(line.as_slice(), 10) {
                    None => {
                        return Err(SnapshotError::InvalidMemValue);
                    },
                    Some(v) => {
                        mi.swap_max = v;
                    },
                }
            } else if begins_with(line.as_slice(), p_swap_free.as_slice()) {
                match parse_kb_field(line.as_slice(), 9) {
                    None => {
                        return Err(SnapshotError::InvalidMemValue);
                    },
                    Some(v) => {
                        mi.swap_used = mi.swap_max - v;
                    },
                }
            }
            proof {
                assert(spec_mi_fold(lv.skip(k as int), old_mi) == spec_mi_fold(
                    lv.skip(k + 1),
                    mi@,
                ));
            }
            k += 1;
        }
        proof {
            assert(lv.skip(k as int).len() == 0);
        }
        Ok(mi)
    }
}

} // verus!
