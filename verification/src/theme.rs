use vstd::prelude::*;
use vstd::string::StringSliceAdditionalSpecFns;
use crate::bytes::{
    contains_sub, lit, remove_byte, second_segment, spec_contains, spec_lines,
    spec_remove, spec_second_segment, spec_trim, split_lines, trim,
};
use crate::snapshot::LinuxSystemInfo;

verus! {

/// The value of the first line that contains `needle` and carries an
/// `=`: the text between the first and second `=`, trimmed. Lines that
/// contain `needle` without an `=` are passed over.
pub open spec fn spec_scan_config(lines: Seq<Seq<u8>>, needle: Seq<u8>) -> Option<Seq<u8>>
    decreases lines.len(),
{
    if lines.len() == 0 {
        None
    } else if spec_contains(lines[0], needle) {
        match spec_second_segment(lines[0], 61) {
            Some(v) => Some(spec_trim(v)),
            None => spec_scan_config(lines.skip(1), needle),
        }
    } else {
        spec_scan_config(lines.skip(1), needle)
    }
}

/// Scans an INI-style settings text for the first line naming `needle`.
pub fn scan_config_value(content: &[u8], needle: &[u8]) -> (r: Option<Vec<u8>>)
    ensures
        match r {
            Some(v) => spec_scan_config(spec_lines(content@), needle@) == Some(v@),
            None => spec_scan_config(spec_lines(content@), needle@) is None,
        },
{
    let lines = split_lines(content);
    let ghost lv = spec_lines(content@);
    proof {
        assert(lv.skip(0) =~= lv);
    }
    let mut k: usize = 0;
    while k < lines.len()
        invariant
            k <= lines@.len(),
            lines.deep_view() == lv,
            lv == spec_lines(content@),
            spec_scan_config(lv.skip(k as int), needle@) == spec_scan_config(lv, needle@),
        decreases lines.len() - k,
    {
        proof {
            assert(lv.skip(k as int)[0] == lines@[k as int]@);
            assert(lv.skip(k as int).skip(1) =~= lv.skip(k + 1));
        }
        let line = &lines[k];
        if contains_sub(line.as_slice(), needle) {
            match second_segment(line.as_slice(), 61) {
                Some(v) => {
                    return Some(trim(v.as_slice()));
                },
                None => {},
            }
        }
        k += 1;
    }
    assert(lv.skip(k as int).len() == 0);
    None
}

/// The theme a settings file resolves to, or `None` when the file is
/// absent or names none.
pub open spec fn spec_file_theme(c: Option<Seq<u8>>, needle: Seq<u8>) -> Option<Seq<u8>> {
    match c {
        None => None,
        Some(content) => spec_scan_config(spec_lines(content), needle),
    }
}

/// The GTK theme policy: a successful desktop-settings query wins as it
/// stands (trimmed, with single quotes removed, even when empty); else
/// the GTK3 settings file, then the legacy GTK2 file; else "Unknown".
pub open spec fn spec_gtk_theme(
    gsettings: Option<Seq<u8>>,
    gtk3: Option<Seq<u8>>,
    gtk2: Option<Seq<u8>>,
) -> Seq<u8> {
    match gsettings {
        Some(out) => spec_remove(spec_trim(out), 39),
        None => match spec_file_theme(gtk3, "gtk-theme-name".spec_bytes()) {
            Some(v) => v,
            None => match spec_file_theme(gtk2, "gtk-theme-name".spec_bytes()) {
                Some(v) => v,
                None => "Unknown".spec_bytes(),
            },
        },
    }
}

/// The QT theme policy: the QT5 config's `style=` first, then the
/// desktop-globals `widgetStyle=`; else "Unknown".
pub open spec fn spec_qt_theme(qt5: Option<Seq<u8>>, kdeglobals: Option<Seq<u8>>) -> Seq<u8> {
    match spec_file_theme(qt5, "style=".spec_bytes()) {
        Some(v) => v,
        None => match spec_file_theme(kdeglobals, "widgetStyle=".spec_bytes()) {
            Some(v) => v,
            None => "Unknown".spec_bytes(),
        },
    }
}

/// The first environment value present, else "Unknown": the desktop
/// environment is taken from an ordered list of candidate variables.
pub open spec fn spec_first_present(vs: Seq<Option<Seq<u8>>>) -> Option<Seq<u8>>
    decreases vs.len(),
{
    if vs.len() == 0 {
        None
    } else if vs[0] is Some {
        vs[0]
    } else {
        spec_first_present(vs.skip(1))
    }
}

pub open spec fn spec_de(vs: Seq<Option<Seq<u8>>>) -> Seq<u8> {
    match spec_first_present(vs) {
        Some(v) => v,
        None => "Unknown".spec_bytes(),
    }
}

/// A present value as it stands, else "Unknown".
pub open spec fn spec_or_unknown(v: Option<Seq<u8>>) -> Seq<u8> {
    match v {
        Some(s) => s,
        None => "Unknown".spec_bytes(),
    }
}

pub fn or_unknown(v: Option<&Vec<u8>>) -> (r: Vec<u8>)
    ensures
        r@ == spec_or_unknown(v.deep_view()),
{
    match v {
        Some(s) => {
            proof {
                assert(s.deep_view() =~= s@);
            }
            vstd::slice::slice_to_vec(s.as_slice())
        },
        None => lit("Unknown"),
    }
}

impl LinuxSystemInfo {
    /// The GTK theme from the query tool's output and the two settings
    /// files, whichever the policy reaches first.
    pub fn get_gtk_theme(
        gsettings: Option<&Vec<u8>>,
        gtk3: Option<&Vec<u8>>,
        gtk2: Option<&Vec<u8>>,
    ) -> (r: Vec<u8>)
        ensures
            r@ == spec_gtk_theme(gsettings.deep_view(), gtk3.deep_view(), gtk2.deep_view()),
    {
        match gsettings {
            Some(out) => {
                proof {
                    assert(out.deep_view() =~= out@);
                }
                let t = trim(out.as_slice());
                remove_byte(t.as_slice(), 39)
            },
            None => {
                let needle = lit("gtk-theme-name");
                if let Some(c) = gtk3 {
                    proof {
                        assert(c.deep_view() =~= c@);
                    }
                    if let Some(v) = scan_config_value(c.as_slice(), needle.as_slice()) {
                        return v;
                    }
                }
                if let Some(c) = gtk2 {
                    proof {
                        assert(c.deep_view() =~= c@);
                    }
                    if let Some(v) = scan_config_value(c.as_slice(), needle.as_slice()) {
                        return v;
                    }
                }
                lit("Unknown")
            },
        }
    }

    /// The QT theme from the two config files, first match wins.
    pub fn get_qt_theme(qt5: Option<&Vec<u8>>, kdeglobals: Option<&Vec<u8>>) -> (r: Vec<u8>)
        ensures
            r@ == spec_qt_theme(qt5.deep_view(), kdeglobals.deep_view()),
    {
        if let Some(c) = qt5 {
            proof {
                assert(c.deep_view() =~= c@);
            }
            let needle = lit("style=");
            if let Some(v) = scan_config_value(c.as_slice(), needle.as_slice()) {
                return v;
            }
        }
        if let Some(c) = kdeglobals {
            proof {
                assert(c.deep_view() =~= c@);
            }
            let needle = lit("widgetStyle=");
            if let Some(v) = scan_config_value(c.as_slice(), needle.as_slice()) {
                return v;
            }
        }
        lit("Unknown")
    }

    /// The desktop environment: the first candidate variable that is
    /// set, else "Unknown".
    pub fn get_de(candidates: &Vec<Option<Vec<u8>>>) -> (r: Vec<u8>)
        ensures
            r@ == spec_de(candidates.deep_view()),
    {
        let ghost vs = candidates.deep_view();
        proof {
            assert(vs.skip(0) =~= vs);
        }
        let mut k: usize = 0;
        while k < candidates.len()
            invariant
                k <= candidates@.len(),
                vs == candidates.deep_view(),
                spec_first_present(vs.skip(k as int)) == spec_first_present(vs),
            decreases candidates.len() - k,
        {
            proof {
                assert(vs.skip(k as int)[0] == candidates@[k as int].deep_view());
                assert(vs.skip(k as int).skip(1) =~= vs.skip(k + 1));
            }
            match &candidates[k] {
                Some(v) => {
                    proof {
                        assert(v.deep_view() =~= v@);
                    }
                    return vstd::slice::slice_to_vec(v.as_slice());
                },
                None => {},
            }
            k += 1;
        }
        assert(vs.skip(k as int).len() == 0);
        lit("Unknown")
    }
}

} // verus!
