use vstd::prelude::*;
use vstd::string::StringSliceAdditionalSpecFns;
use crate::bytes::{bytes_eq, lit, spec_tokens, spec_trim, split_ws, trim};
use crate::num::{parse_u32, spec_parse_u32};

verus! {

/// How far up the ancestor chain the terminal probe will look before
/// giving up, so that a malformed process table cannot loop it forever.
pub const MAX_TERMINAL_WALK: u32 = 64;

/// One readable process: its id, its short command name as read, and
/// its parent's id.
#[derive(Debug)]
pub struct ProcessEntry {
    pub pid: u32,
    pub comm: Vec<u8>,
    pub ppid: u32,
}

/// What the ancestor walk ends with.
#[derive(Debug)]
pub enum TerminalResult {
    Found(Vec<u8>),
    NotFound,
}

pub open spec fn table_view(es: Seq<ProcessEntry>) -> Seq<(u32, Seq<u8>, u32)> {
    es.map_values(|e: ProcessEntry| (e.pid, e.comm@, e.ppid))
}

/// Whether a trimmed command name is one of the known terminal emulators.
pub open spec fn is_known_terminal_name(s: Seq<u8>) -> bool {
    ||| s == "gnome-terminal".spec_bytes()
    ||| s == "xterm".spec_bytes()
    ||| s == "konsole".spec_bytes()
    ||| s == "alacritty".spec_bytes()
    ||| s == "tilix".spec_bytes()
    ||| s == "urxvt".spec_bytes()
    ||| s == "terminator".spec_bytes()
    ||| s == "xfce4-terminal".spec_bytes()
    ||| s == "kitty".spec_bytes()
    ||| s == "lxterminal".spec_bytes()
    ||| s == "st".spec_bytes()
    ||| s == "mate-terminal".spec_bytes()
    ||| s == "deepin-terminal".spec_bytes()
}

pub fn is_known_terminal(name: &[u8]) -> (r: bool)
    ensures
        r == is_known_terminal_name(name@),
{
    let k0 = lit("gnome-terminal");
    let k1 = lit("xterm");
    let k2 = lit("konsole");
    let k3 = lit("alacritty");
    let k4 = lit("tilix");
    let k5 = lit("urxvt");
    let k6 = lit("terminator");
    let k7 = lit("xfce4-terminal");
    let k8 = lit("kitty");
    let k9 = lit("lxterminal");
    let k10 = lit("st");
    let k11 = lit("mate-terminal");
    let k12 = lit("deepin-terminal");
    bytes_eq(name, k0.as_slice()) || bytes_eq(name, k1.as_slice()) || bytes_eq(
        name,
        k2.as_slice(),
    ) || bytes_eq(name, k3.as_slice()) || bytes_eq(name, k4.as_slice()) || bytes_eq(
        name,
        k5.as_slice(),
    ) || bytes_eq(name, k6.as_slice()) || bytes_eq(name, k7.as_slice()) || bytes_eq(
        name,
        k8.as_slice(),
    ) || bytes_eq(name, k9.as_slice()) || bytes_eq(name, k10.as_slice()) || bytes_eq(
        name,
        k11.as_slice(),
    ) || bytes_eq(name, k12.as_slice())
}

/// The parent process id a status line reports: the fourth
/// whitespace-delimited field, read as a decimal number.
pub open spec fn spec_stat_ppid(s: Seq<u8>) -> Option<u32> {
    let toks = spec_tokens(s);
    if toks.len() < 4 {
        None
    } else {
        spec_parse_u32(toks[3])
    }
}

pub fn parse_stat_ppid(stat: &[u8]) -> (r: Option<u32>)
    ensures
        r == spec_stat_ppid(stat@),
{
    let toks = split_ws(stat);
    if toks.len() < 4 {
        None
    } else {
        proof {
            assert(toks.deep_view()[3] == toks@[3]@);
        }
        parse_u32(toks[3].as_slice())
    }
}

/// The first entry for `pid`, scanning the table in order.
pub open spec fn spec_table_lookup(t: Seq<(u32, Seq<u8>, u32)>, pid: u32) -> Option<
    (u32, Seq<u8>, u32),
>
    decreases t.len(),
{
    if t.len() == 0 {
        None
    } else if t[0].0 == pid {
        Some(t[0])
    } else {
        spec_table_lookup(t.skip(1), pid)
    }
}

fn table_lookup(table: &Vec<ProcessEntry>, pid: u32) -> (r: Option<usize>)
    ensures
        match r {
            Some(ix) => ix < table@.len() && spec_table_lookup(table_view(table@), pid) == Some(
                (table@[ix as int].pid, table@[ix as int].comm@, table@[ix as int].ppid),
            ),
            None => spec_table_lookup(table_view(table@), pid) is None,
        },
{
    let ghost tv = table_view(table@);
    proof {
        assert(tv.skip(0) =~= tv);
    }
    let mut k: usize = 0;
    while k < table.len()
        invariant
            k <= table@.len(),
            tv == table_view(table@),
            spec_table_lookup(tv.skip(k as int), pid) == spec_table_lookup(tv, pid),
        decreases table.len() - k,
    {
        proof {
            assert(tv.skip(k as int)[0] == (
                table@[k as int].pid,
                table@[k as int].comm@,
                table@[k as int].ppid,
            ));
            assert(tv.skip(k as int).skip(1) =~= tv.skip(k + 1));
        }
        if table[k].pid == pid {
            return Some(k);
        }
        k += 1;
    }
    assert(tv.skip(k as int).len() == 0);
    None
}

/// The ancestor walk over a process table: from `pid`, return the first
/// trimmed command name on the parent chain that is a known terminal;
/// `None` when a process is unreadable or the fuel runs out first.
pub open spec fn spec_walk(t: Seq<(u32, Seq<u8>, u32)>, pid: u32, fuel: nat) -> Option<Seq<u8>>
    decreases fuel,
{
    if fuel == 0 {
        None
    } else {
        match spec_table_lookup(t, pid) {
            None => None,
            Some(e) => {
                let name = spec_trim(e.1);
                if is_known_terminal_name(name) {
                    Some(name)
                } else {
                    spec_walk(t, e.2, (fuel - 1) as nat)
                }
            },
        }
    }
}

/// Walks the ancestor chain recorded in `table`, starting at
/// `start_pid`, at most `MAX_TERMINAL_WALK` steps.
pub fn get_terminal_name(table: &Vec<ProcessEntry>, start_pid: u32) -> (r: TerminalResult)
    ensures
        match r {
            TerminalResult::Found(name) => spec_walk(
                table_view(table@),
                start_pid,
                MAX_TERMINAL_WALK as nat,
            ) == Some(name@),
            TerminalResult::NotFound => spec_walk(
                table_view(table@),
                start_pid,
                MAX_TERMINAL_WALK as nat,
            ) is None,
        },
{
    let ghost tv = table_view(table@);
    let mut pid: u32 = start_pid;
    let mut fuel: u32 = MAX_TERMINAL_WALK;
    while fuel > 0
        invariant
            tv == table_view(table@),
            fuel <= MAX_TERMINAL_WALK,
            spec_walk(tv, start_pid, MAX_TERMINAL_WALK as nat) == spec_walk(
                tv,
                pid,
                fuel as nat,
            ),
        decreases fuel,
    {
        match table_lookup(table, pid) {
            None => {
                return TerminalResult::NotFound;
            },
            Some(ix) => {
                let name = trim(table[ix].comm.as_slice());
                if is_known_terminal(name.as_slice()) {
                    return TerminalResult::Found(name);
                }
                pid = table[ix].ppid;
                fuel = fuel - 1;
            },
        }
    }
    TerminalResult::NotFound
}

/// What the live walk does with one process's files: an unreadable
/// command name, an unreadable status, or an unparsable parent field
/// each end the walk; a known name ends it with that name; otherwise it
/// continues at the parent.
#[derive(Debug)]
pub enum TerminalStep {
    Found(Vec<u8>),
    Continue(u32),
    Stop,
}

pub fn terminal_step(comm: Option<&Vec<u8>>, stat: Option<&Vec<u8>>) -> (r: TerminalStep)
    ensures
        comm is None ==> r is Stop,
        comm matches Some(c) ==> ({
            let name = spec_trim(c@);
            if is_known_terminal_name(name) {
                r matches TerminalStep::Found(n) && n@ == name
            } else {
                match stat {
                    None => r is Stop,
                    Some(s) => match spec_stat_ppid(s@) {
                        None => r is Stop,
                        Some(pp) => r == TerminalStep::Continue(pp),
                    },
                }
            }
        }),
{
    match comm {
        None => TerminalStep::Stop,
        Some(c) => {
            let name = trim(c.as_slice());
            if is_known_terminal(name.as_slice()) {
                TerminalStep::Found(name)
            } else {
                match stat {
                    None => TerminalStep::Stop,
                    Some(s) => match parse_stat_ppid(s.as_slice()) {
                        None => TerminalStep::Stop,
                        Some(p) => TerminalStep::Continue(p),
                    },
                }
            }
        },
    }
}

} // verus!
