use vstd::prelude::*;
use vstd::string::StringSliceAdditionalSpecFns;
use crate::bytes::{
    first_segment, lit, second_segment, spec_first_segment, spec_lines, spec_second_segment,
    spec_trim_byte, split_lines, trim_byte, bytes_eq,
};
use crate::error::SnapshotError;

verus! {

/// The distribution facts read from the OS release descriptor,
/// each defaulting to the empty string where its key is absent.
#[derive(Debug)]
pub struct OsRelease {
    pub name: Vec<u8>,
    pub pretty_name: Vec<u8>,
    pub version: Vec<u8>,
    pub id: Vec<u8>,
    pub id_like: Vec<u8>,
}

/// The mathematical shadow of `OsRelease`.
pub struct OsReleaseView {
    pub name: Seq<u8>,
    pub pretty_name: Seq<u8>,
    pub version: Seq<u8>,
    pub id: Seq<u8>,
    pub id_like: Seq<u8>,
}

impl View for OsRelease {
    type V = OsReleaseView;

    open spec fn view(&self) -> OsReleaseView {
        OsReleaseView {
            name: self.name@,
            pretty_name: self.pretty_name@,
            version: self.version@,
            id: self.id@,
            id_like: self.id_like@,
        }
    }
}

/// The value a descriptor line carries: the text between the first and
/// second `=`, stripped of surrounding double quotes. `None` when the
/// line has no `=` at all, which is a fatal malformation.
pub open spec fn spec_os_value(line: Seq<u8>) -> Option<Seq<u8>> {
    match spec_second_segment(line, 61) {
        None => None,
        Some(v) => Some(spec_trim_byte(v, 34)),
    }
}

pub open spec fn spec_os_apply(acc: OsReleaseView, key: Seq<u8>, val: Seq<u8>) -> OsReleaseView {
    if key == "NAME".spec_bytes() {
        OsReleaseView { name: val, ..acc }
    } else if key == "PRETTY_NAME".spec_bytes() {
        OsReleaseView { pretty_name: val, ..acc }
    } else if key == "VERSION".spec_bytes() {
        OsReleaseView { version: val, ..acc }
    } else if key == "ID".spec_bytes() {
        OsReleaseView { id: val, ..acc }
    } else if key == "ID_LIKE".spec_bytes() {
        OsReleaseView { id_like: val, ..acc }
    } else {
        acc
    }
}

/// Reads the descriptor line by line, later lines overriding earlier
/// ones; `None` as soon as one line is malformed.
pub open spec fn spec_os_fold(lines: Seq<Seq<u8>>, acc: OsReleaseView) -> Option<OsReleaseView>
    decreases lines.len(),
{
    if lines.len() == 0 {
        Some(acc)
    } else {
        let key = spec_first_segment(lines[0], 61);
        match spec_os_value(lines[0]) {
            None => None,
            Some(val) => spec_os_fold(lines.skip(1), spec_os_apply(acc, key, val)),
        }
    }
}

pub open spec fn spec_os_empty() -> OsReleaseView {
    OsReleaseView {
        name: Seq::empty(),
        pretty_name: Seq::empty(),
        version: Seq::empty(),
        id: Seq::empty(),
        id_like: Seq::empty(),
    }
}

/// What parsing the whole descriptor yields.
pub open spec fn spec_os_release(content: Seq<u8>) -> Result<OsReleaseView, SnapshotError> {
    match spec_os_fold(spec_lines(content), spec_os_empty()) {
        None => Err(SnapshotError::MalformedOsReleaseLine),
        Some(v) => Ok(v),
    }
}

/// Parses the OS release descriptor: `KEY=value` per line, values
/// unquoted, the five distribution keys retained, empty where absent.
pub fn parse_os_release(content: &[u8]) -> (r: Result<OsRelease, SnapshotError>)
    ensures
        match r {
            Ok(o) => spec_os_release(content@) == Ok::<OsReleaseView, SnapshotError>(o@),
            Err(e) => spec_os_release(content@) == Err::<OsReleaseView, SnapshotError>(e),
        },
{
    let lines = split_lines(content);
    let ghost lv = spec_lines(content@);
    let mut acc = OsRelease {
        name: Vec::new(),
        pretty_name: Vec::new(),
        version: Vec::new(),
        id: Vec::new(),
        id_like: Vec::new(),
    };
    proof {
        assert(acc@ =~~= spec_os_empty());
        assert(lv.skip(0) =~= lv);
    }
    let key_name = lit("NAME");
    let key_pretty = lit("PRETTY_NAME");
    let key_version = lit("VERSION");
    let key_id = lit("ID");
    let key_id_like = lit("ID_LIKE");
    let mut k: usize = 0;
    while k < lines.len()
        invariant
            k <= lines@.len(),
            lines.deep_view() == lv,
            lv == spec_lines(content@),
            key_name@ == "NAME".spec_bytes(),
            key_pretty@ == "PRETTY_NAME".spec_bytes(),
            key_version@ == "VERSION".spec_bytes(),
            key_id@ == "ID".spec_bytes(),
            key_id_like@ == "ID_LIKE".spec_bytes(),
            spec_os_fold(lv.skip(k as int), acc@) == spec_os_fold(lv, spec_os_empty()),
        decreases lines.len() - k,
    {
        proof {
            assert(lv.skip(k as int)[0] == lines@[k as int]@);
            assert(lv.skip(k as int).skip(1) =~= lv.skip(k + 1));
        }
        let line = &lines[k];
        let key = first_segment(line.as_slice(), 61);
        match second_segment(line.as_slice(), 61) {
            None => {
                proof {
                    assert(spec_os_value(lv.skip(k as int)[0]) is None);
                    assert(spec_os_fold(lv.skip(k as int), acc@) is None);
                }
                return Err(SnapshotError::MalformedOsReleaseLine);
            },
            Some(raw) => {
                let val = trim_byte(raw.as_slice(), 34);
                let ghost prev = acc@;
                if bytes_eq(key.as_slice(), key_name.as_slice()) {
                    acc.name = val;
                } else if bytes_eq(key.as_slice(), key_pretty.as_slice()) {
                    acc.pretty_name = val;
                } else if bytes_eq(key.as_slice(), key_version.as_slice()) {
                    acc.version = val;
                } else if bytes_eq(key.as_slice(), key_id.as_slice()) {
                    acc.id = val;
                } else if bytes_eq(key.as_slice(), key_id_like.as_slice()) {
                    acc.id_like = val;
                }
                proof {
                    assert(spec_os_value(lv.skip(k as int)[0]) == Some(val@));
                    assert(acc@ =~~= spec_os_apply(
                        prev,
                        spec_first_segment(lines@[k as int]@, 61),
                        spec_trim_byte(raw@, 34),
                    ));
                    assert(spec_os_fold(lv.skip(k as int), prev) == spec_os_fold(
                        lv.skip(k + 1),
                        acc@,
                    ));
                }
            },
        }
        k += 1;
    }
    proof {
        assert(lv.skip(k as int).len() == 0);
        assert(spec_os_fold(lv.skip(k as int), acc@) == Some(acc@));
    }
    Ok(acc)
}

} // verus!
