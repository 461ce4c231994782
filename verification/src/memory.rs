use vstd::prelude::*;
use vstd::string::StringSliceAdditionalSpecFns;
use vstd::slice::slice_to_vec;
use crate::bytes::{
    first_segment, lit, second_segment, spec_first_segment, spec_lines, spec_second_segment,
    spec_trim, split_lines, trim, bytes_eq,
};
use crate::error::SnapshotError;
use crate::num::{parse_u64, spec_parse_u64};

verus! {

/// The two raw readings the memory probe needs, in kB, with their
/// difference: what the snapshot's derived quantities are computed from.
#[derive(Debug)]
pub struct MemoryReadings {
    pub total_kb: u64,
    pub available_kb: u64,
    pub used_kb: u64,
}

/// The value tokens found so far for the two lines that matter.
pub struct MemTokens {
    pub total: Option<Seq<u8>>,
    pub available: Option<Seq<u8>>,
}

/// The keys whose lines the probe insists are well-formed.
pub open spec fn is_required_mem_key(k: Seq<u8>) -> bool {
    k == "MemTotal".spec_bytes() || k == "MemFree".spec_bytes() || k
        == "MemAvailable".spec_bytes() || k == "SwapTotal".spec_bytes() || k
        == "SwapFree".spec_bytes()
}

/// The first whitespace-delimited token of a line's value: the text
/// between the first and second colon, trimmed, cut at the first space.
pub open spec fn spec_mem_token(line: Seq<u8>) -> Option<Seq<u8>> {
    match spec_second_segment(line, 58) {
        None => None,
        Some(v) => Some(spec_first_segment(spec_trim(v), 32)),
    }
}

/// Scans the memory-status lines in order, keeping the latest token for
/// the total and available keys; `None` as soon as a required line
/// carries no value.
pub open spec fn spec_mem_fold(lines: Seq<Seq<u8>>, acc: MemTokens) -> Option<MemTokens>
    decreases lines.len(),
{
    if lines.len() == 0 {
        Some(acc)
    } else {
        let k = spec_first_segment(lines[0], 58);
        if is_required_mem_key(k) {
            match spec_mem_token(lines[0]) {
                None => None,
                Some(tok) => spec_mem_fold(
                    lines.skip(1),
                    MemTokens {
                        total: if k == "MemTotal".spec_bytes() {
                            Some(tok)
                        } else {
                            acc.total
                        },
                        available: if k == "MemAvailable".spec_bytes() {
                            Some(tok)
                        } else {
                            acc.available
                        },
                    },
                ),
            }
        } else {
            spec_mem_fold(lines.skip(1), acc)
        }
    }
}

/// What the memory probe yields from the status text: the total and
/// available readings in kB, or the first failure.
pub open spec fn spec_meminfo_readings(content: Seq<u8>) -> Result<(int, int), SnapshotError> {
    match spec_mem_fold(spec_lines(content), MemTokens { total: None, available: None }) {
        None => Err(SnapshotError::MalformedMemInfoLine),
        Some(tk) => match tk.total {
            None => Err(SnapshotError::MissingMemTotal),
            Some(tt) => match spec_parse_u64(tt) {
                None => Err(SnapshotError::InvalidMemValue),
                Some(total) => match tk.available {
                    None => Err(SnapshotError::MissingMemAvailable),
                    Some(ta) => match spec_parse_u64(ta) {
                        None => Err(SnapshotError::InvalidMemValue),
                        Some(avail) => if total == 0 {
                            Err(SnapshotError::ZeroMemTotal)
                        } else if avail > total {
                            Err(SnapshotError::AvailableExceedsTotal)
                        } else {
                            Ok((total as int, avail as int))
                        },
                    },
                },
            },
        },
    }
}

/// Parses the kernel memory-status text and derives the used amount.
pub fn parse_meminfo(content: &[u8]) -> (r: Result<MemoryReadings, SnapshotError>)
    ensures
        match r {
            Ok(m) => spec_meminfo_readings(content@) == Ok::<(int, int), SnapshotError>(
                (m.total_kb as int, m.available_kb as int),
            ) && m.used_kb == m.total_kb - m.available_kb && m.available_kb <= m.total_kb
                && m.total_kb >= 1,
            Err(e) => spec_meminfo_readings(content@) == Err::<(int, int), SnapshotError>(e),
        },
{
    let lines = split_lines(content);
    let ghost lv = spec_lines(content@);
    let mut total_tok: Option<Vec<u8>> = None;
    let mut avail_tok: Option<Vec<u8>> = None;
    let ghost init = MemTokens { total: None, available: None };
    proof {
        assert(lv.skip(0) =~= lv);
    }
    let key_total = lit("MemTotal");
    let key_free = lit("MemFree");
    let key_avail = lit("MemAvailable");
    let key_swap_total = lit("SwapTotal");
    let key_swap_free = lit("SwapFree");
    let mut k: usize = 0;
    while k < lines.len()
        invariant
            k <= lines@.len(),
            lines.deep_view() == lv,
            lv == spec_lines(content@),
            key_total@ == "MemTotal".spec_bytes(),
            key_free@ == "MemFree".spec_bytes(),
            key_avail@ == "MemAvailable".spec_bytes(),
            key_swap_total@ == "SwapTotal".spec_bytes(),
            key_swap_free@ == "SwapFree".spec_bytes(),
            spec_mem_fold(
                lv.skip(k as int),
                MemTokens { total: total_tok.deep_view(), available: avail_tok.deep_view() },
            ) == spec_mem_fold(lv, MemTokens { total: None, available: None }),
        decreases lines.len() - k,
    {
        proof {
            assert(lv.skip(k as int)[0] == lines@[k as int]@);
            assert(lv.skip(k as int).skip(1) =~= lv.skip(k + 1));
        }
        let line = &lines[k];
        let key = first_segment(line.as_slice(), 58);
        let ghost old_acc = MemTokens { total: total_tok.deep_view(), available: avail_tok.deep_view() };
        let ghost sk = spec_first_segment(lv.skip(k as int)[0], 58);
        let is_total = bytes_eq(key.as_slice(), key_total.as_slice());
        let is_avail = bytes_eq(key.as_slice(), key_avail.as_slice());
        let required = is_total || is_avail || bytes_eq(key.as_slice(), key_free.as_slice())
            || bytes_eq(key.as_slice(), key_swap_total.as_slice()) || bytes_eq(
            key.as_slice(),
            key_swap_free.as_slice(),
        );
        assert(required == is_required_mem_key(sk));
        if required {
            match second_segment(line.as_slice(), 58) {
                None => {
                    proof {
                        assert(spec_mem_token(lv.skip(k as int)[0]) is None);
                        assert(spec_mem_fold(lv.skip(k as int), old_acc) is None);
                    }
                    return Err(SnapshotError::MalformedMemInfoLine);
                },
                Some(raw) => {
                    let trimmed = trim(raw.as_slice());
                    let tok = first_segment(trimmed.as_slice(), 32);
                    proof {
                        assert(tok.deep_view() =~= tok@);
                        assert(spec_mem_token(lines@[k as int]@) == Some(tok@));
                    }
                    if is_total {
                        total_tok = Some(slice_to_vec(tok.as_slice()));
                    }
                    if is_avail {
                        avail_tok = Some(slice_to_vec(tok.as_slice()));
                    }
                    proof {
                        let new_acc = MemTokens {
                            total: total_tok.deep_view(),
                            available: avail_tok.deep_view(),
                        };
                        assert(new_acc == MemTokens {
                            total: if sk == "MemTotal".spec_bytes() {
                                Some(tok@)
                            } else {
                                old_acc.total
                            },
                            available: if sk == "MemAvailable".spec_bytes() {
                                Some(tok@)
                            } else {
                                old_acc.available
                            },
                        });
                        assert(spec_mem_fold(lv.skip(k as int), old_acc) == spec_mem_fold(
                            lv.skip(k + 1),
                            new_acc,
                        ));
                    }
                },
            }
        } else {
            proof {
                assert(spec_mem_fold(lv.skip(k as int), old_acc) == spec_mem_fold(
                    lv.skip(k + 1),
                    old_acc,
                ));
            }
        }
        k += 1;
    }
    proof {
        assert(lv.skip(k as int).len() == 0);
        assert(spec_mem_fold(
            lv.skip(k as int),
            MemTokens { total: total_tok.deep_view(), available: avail_tok.deep_view() },
        ) == Some(
            MemTokens { total: total_tok.deep_view(), available: avail_tok.deep_view() },
        ));
    }
    let ghost tk = MemTokens { total: total_tok.deep_view(), available: avail_tok.deep_view() };
    proof {
        assert(spec_mem_fold(lv, MemTokens { total: None, available: None }) == Some(tk));
    }
    let total_kb: u64 = match &total_tok {
        None => {
            return Err(SnapshotError::MissingMemTotal);
        },
        Some(tt) => {
            proof {
                assert(tt.deep_view() =~= tt@);
            }
            match parse_u64(tt.as_slice()) {
                None => {
                    return Err(SnapshotError::InvalidMemValue);
                },
                Some(v) => v,
            }
        },
    };
    let available_kb: u64 = match &avail_tok {
        None => {
            return Err(SnapshotError::MissingMemAvailable);
        },
        Some(ta) => {
            proof {
                assert(ta.deep_view() =~= ta@);
            }
            match parse_u64(ta.as_slice()) {
                None => {
                    return Err(SnapshotError::InvalidMemValue);
                },
                Some(v) => v,
            }
        },
    };
    if total_kb == 0 {
        return Err(SnapshotError::ZeroMemTotal);
    }
    if available_kb > total_kb {
        return Err(SnapshotError::AvailableExceedsTotal);
    }
    Ok(MemoryReadings { total_kb, available_kb, used_kb: total_kb - available_kb })
}

} // verus!
