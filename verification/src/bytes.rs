use vstd::prelude::*;
use vstd::slice::{slice_subrange, slice_to_vec};
use vstd::string::StringSliceAdditionalSpecFns;

verus! {

/// The ASCII characters that `trim` removes at either end of a token.
pub open spec fn is_ascii_ws(b: u8) -> bool {
    b == 32 || (9 <= b && b <= 13)
}

/// Index of the first occurrence of `b` in `s`, or `s.len()` if absent.
pub open spec fn spec_find_idx(s: Seq<u8>, b: u8) -> int
    decreases s.len(),
{
    if s.len() == 0 {
        0
    } else if s[0] == b {
        0
    } else {
        1 + spec_find_idx(s.skip(1), b)
    }
}

pub broadcast proof fn lemma_find_idx_bounds(s: Seq<u8>, b: u8)
    ensures
        0 <= #[trigger] spec_find_idx(s, b) <= s.len(),
    decreases s.len(),
{
    if s.len() > 0 && s[0] != b {
        lemma_find_idx_bounds(s.skip(1), b);
    }
}

/// Byte-wise equality of two slices, usable wherever the derived
/// `PartialEq` of `Vec<u8>` would be opaque to the verifier.
pub fn bytes_eq(a: &[u8], b: &[u8]) -> (r: bool)
    ensures
        r == (a@ == b@),
{
    if a.len() != b.len() {
        assert(a@ != b@);
        return false;
    }
    let mut i: usize = 0;
    while i < a.len()
        invariant
            i <= a.len(),
            a@.len() == b@.len(),
            forall|k: int| 0 <= k < i ==> a@[k] == b@[k],
        decreases a.len() - i,
    {
        if a[i] != b[i] {
            return false;
        }
        i += 1;
    }
    assert(a@ =~= b@);
    true
}

pub fn find_idx(s: &[u8], b: u8) -> (r: usize)
    ensures
        r == spec_find_idx(s@, b),
        0 <= r <= s@.len(),
{
    proof {
        broadcast use lemma_find_idx_bounds;

        assert(s@.skip(0) =~= s@);
    }
    let mut i: usize = 0;
    while i < s.len()
        invariant
            i <= s@.len(),
            spec_find_idx(s@, b) == i + spec_find_idx(s@.skip(i as int), b),
        decreases s.len() - i,
    {
        proof {
            broadcast use lemma_find_idx_bounds;
        }
        if s[i] == b {
            assert(s@.skip(i as int)[0] == b);
            assert(spec_find_idx(s@.skip(i as int), b) == 0);
            return i;
        }
        proof {
            assert(s@.skip(i as int).skip(1) =~= s@.skip(i + 1));
        }
        i += 1;
    }
    assert(s@.skip(i as int).len() == 0);
    i
}

pub fn is_ws(b: u8) -> (r: bool)
    ensures
        r == is_ascii_ws(b),
{
    b == 32 || (9 <= b && b <= 13)
}

pub open spec fn spec_trim_front(s: Seq<u8>) -> Seq<u8>
    decreases s.len(),
{
    if s.len() > 0 && is_ascii_ws(s[0]) {
        spec_trim_front(s.skip(1))
    } else {
        s
    }
}

pub open spec fn spec_trim_back(s: Seq<u8>) -> Seq<u8>
    decreases s.len(),
{
    if s.len() > 0 && is_ascii_ws(s[s.len() - 1]) {
        spec_trim_back(s.take(s.len() - 1))
    } else {
        s
    }
}

/// ASCII counterpart of `str::trim`.
pub open spec fn spec_trim(s: Seq<u8>) -> Seq<u8> {
    spec_trim_front(spec_trim_back(s))
}

pub fn trim(s: &[u8]) -> (r: Vec<u8>)
    ensures
        r@ == spec_trim(s@),
{
    let mut j: usize = s.len();
    proof {
        assert(s@.take(j as int) =~= s@);
    }
    while j > 0 && is_ws(s[j - 1])
        invariant
            j <= s@.len(),
            spec_trim_back(s@) == spec_trim_back(s@.take(j as int)),
        decreases j,
    {
        proof {
            assert(s@.take(j as int).take(j - 1) =~= s@.take(j - 1));
            assert(s@.take(j as int)[j - 1] == s@[j - 1]);
        }
        j -= 1;
    }
    assert(spec_trim_back(s@) == s@.take(j as int));
    let mut i: usize = 0;
    proof {
        assert(s@.take(j as int) =~= s@.subrange(0, j as int));
    }
    while i < j && is_ws(s[i])
        invariant
            i <= j <= s@.len(),
            spec_trim_front(s@.take(j as int)) == spec_trim_front(s@.subrange(i as int, j as int)),
        decreases j - i,
    {
        proof {
            assert(s@.subrange(i as int, j as int).skip(1) =~= s@.subrange(i + 1, j as int));
            assert(s@.subrange(i as int, j as int)[0] == s@[i as int]);
        }
        i += 1;
    }
    assert(spec_trim_front(s@.take(j as int)) == s@.subrange(i as int, j as int));
    slice_to_vec(slice_subrange(s, i, j))
}

/// What remains of `s` after every occurrence of `b` is removed.
pub open spec fn spec_remove(s: Seq<u8>, b: u8) -> Seq<u8>
    decreases s.len(),
{
    if s.len() == 0 {
        Seq::empty()
    } else if s[0] == b {
        spec_remove(s.skip(1), b)
    } else {
        seq![s[0]] + spec_remove(s.skip(1), b)
    }
}

pub fn remove_byte(s: &[u8], b: u8) -> (r: Vec<u8>)
    ensures
        r@ == spec_remove(s@, b),
{
    let mut out: Vec<u8> = Vec::new();
    let mut i: usize = 0;
    proof {
        assert(s@.skip(0) =~= s@);
        assert(out@ + spec_remove(s@, b) =~= spec_remove(s@, b));
    }
    while i < s.len()
        invariant
            i <= s@.len(),
            out@ + spec_remove(s@.skip(i as int), b) == spec_remove(s@, b),
        decreases s.len() - i,
    {
        proof {
            assert(s@.skip(i as int).skip(1) =~= s@.skip(i + 1));
            assert(s@.skip(i as int)[0] == s@[i as int]);
        }
        let ghost old_out = out@;
        if s[i] != b {
            out.push(s[i]);
            proof {
                assert(out@ =~= old_out + seq![s@[i as int]]);
                assert((old_out + seq![s@[i as int]]) + spec_remove(s@.skip(i + 1), b) =~= old_out
                    + (seq![s@[i as int]] + spec_remove(s@.skip(i + 1), b)));
            }
        }
        i += 1;
    }
    proof {
        assert(s@.skip(i as int).len() == 0);
        assert(out@ + spec_remove(s@.skip(i as int), b) =~= out@);
    }
    out
}

/// Strips matching runs of `b` from both ends, as `str::trim_matches` does.
pub open spec fn spec_trim_byte_front(s: Seq<u8>, b: u8) -> Seq<u8>
    decreases s.len(),
{
    if s.len() > 0 && s[0] == b {
        spec_trim_byte_front(s.skip(1), b)
    } else {
        s
    }
}

pub open spec fn spec_trim_byte_back(s: Seq<u8>, b: u8) -> Seq<u8>
    decreases s.len(),
{
    if s.len() > 0 && s[s.len() - 1] == b {
        spec_trim_byte_back(s.take(s.len() - 1), b)
    } else {
        s
    }
}

pub open spec fn spec_trim_byte(s: Seq<u8>, b: u8) -> Seq<u8> {
    spec_trim_byte_front(spec_trim_byte_back(s, b), b)
}

pub fn trim_byte(s: &[u8], b: u8) -> (r: Vec<u8>)
    ensures
        r@ == spec_trim_byte(s@, b),
{
    let mut j: usize = s.len();
    proof {
        assert(s@.take(j as int) =~= s@);
    }
    while j > 0 && s[j - 1] == b
        invariant
            j <= s@.len(),
            spec_trim_byte_back(s@, b) == spec_trim_byte_back(s@.take(j as int), b),
        decreases j,
    {
        proof {
            assert(s@.take(j as int).take(j - 1) =~= s@.take(j - 1));
            assert(s@.take(j as int)[j - 1] == s@[j - 1]);
        }
        j -= 1;
    }
    assert(spec_trim_byte_back(s@, b) == s@.take(j as int));
    let mut i: usize = 0;
    proof {
        assert(s@.take(j as int) =~= s@.subrange(0, j as int));
    }
    while i < j && s[i] == b
        invariant
            i <= j <= s@.len(),
            spec_trim_byte_front(s@.take(j as int), b) == spec_trim_byte_front(
                s@.subrange(i as int, j as int),
                b,
            ),
        decreases j - i,
    {
        proof {
            assert(s@.subrange(i as int, j as int).skip(1) =~= s@.subrange(i + 1, j as int));
            assert(s@.subrange(i as int, j as int)[0] == s@[i as int]);
        }
        i += 1;
    }
    assert(spec_trim_byte_front(s@.take(j as int), b) == s@.subrange(i as int, j as int));
    slice_to_vec(slice_subrange(s, i, j))
}

/// True when `p` is a prefix of `s`.
pub open spec fn spec_begins_with(s: Seq<u8>, p: Seq<u8>) -> bool {
    p.len() <= s.len() && s.subrange(0, p.len() as int) == p
}

pub fn begins_with(s: &[u8], p: &[u8]) -> (r: bool)
    ensures
        r == spec_begins_with(s@, p@),
{
    if p.len() > s.len() {
        return false;
    }
    bytes_eq(slice_subrange(s, 0, p.len()), p)
}

/// True when `p` is a suffix of `s`.
pub open spec fn spec_ends_with(s: Seq<u8>, p: Seq<u8>) -> bool {
    p.len() <= s.len() && s.subrange(s.len() - p.len(), s.len() as int) == p
}

pub fn ends_with(s: &[u8], p: &[u8]) -> (r: bool)
    ensures
        r == spec_ends_with(s@, p@),
{
    if p.len() > s.len() {
        return false;
    }
    bytes_eq(slice_subrange(s, s.len() - p.len(), s.len()), p)
}

/// The text before the first `sep`, or all of `s` when `sep` is absent:
/// the first field that splitting on `sep` yields.
pub open spec fn spec_first_segment(s: Seq<u8>, sep: u8) -> Seq<u8> {
    s.take(spec_find_idx(s, sep))
}

pub fn first_segment(s: &[u8], sep: u8) -> (r: Vec<u8>)
    ensures
        r@ == spec_first_segment(s@, sep),
{
    let i = find_idx(s, sep);
    let r = slice_to_vec(slice_subrange(s, 0, i));
    proof {
        assert(s@.subrange(0, i as int) =~= s@.take(i as int));
    }
    r
}

/// The text between the first and second `sep` (or the end), i.e. the
/// second field that splitting on `sep` yields; `None` when `sep` is absent.
pub open spec fn spec_second_segment(s: Seq<u8>, sep: u8) -> Option<Seq<u8>> {
    let i = spec_find_idx(s, sep);
    if i == s.len() {
        None
    } else {
        let rest = s.skip(i + 1);
        Some(rest.take(spec_find_idx(rest, sep)))
    }
}

pub fn second_segment(s: &[u8], sep: u8) -> (r: Option<Vec<u8>>)
    ensures
        match r {
            Some(v) => spec_second_segment(s@, sep) == Some(v@),
            None => spec_second_segment(s@, sep) is None,
        },
{
    let i = find_idx(s, sep);
    if i == s.len() {
        return None;
    }
    let rest = slice_subrange(s, i + 1, s.len());
    let j = find_idx(rest, sep);
    let v = slice_to_vec(slice_subrange(rest, 0, j));
    proof {
        assert(rest@ =~= s@.skip(i + 1));
        assert(rest@.subrange(0, j as int) =~= rest@.take(j as int));
    }
    Some(v)
}

/// How many non-overlapping occurrences of `n` appear in `h`, scanning
/// from the left, as `str::matches(n).count()` reports.
pub open spec fn spec_count(h: Seq<u8>, n: Seq<u8>) -> nat
    decreases h.len(),
    when n.len() > 0
{
    if h.len() < n.len() {
        0
    } else if h.take(n.len() as int) == n {
        1 + spec_count(h.skip(n.len() as int), n)
    } else {
        spec_count(h.skip(1), n)
    }
}

pub fn count_occurrences(h: &[u8], n: &[u8]) -> (r: u64)
    requires
        n@.len() > 0,
    ensures
        r == spec_count(h@, n@),
{
    let mut c: u64 = 0;
    let mut i: usize = 0;
    proof {
        assert(h@.skip(0) =~= h@);
    }
    while i < h.len()
        invariant
            i <= h@.len(),
            c <= i,
            n@.len() > 0,
            c + spec_count(h@.skip(i as int), n@) == spec_count(h@, n@),
        decreases h.len() - i,
    {
        if h.len() - i < n.len() {
            assert(h@.skip(i as int).len() < n@.len());
            assert(spec_count(h@.skip(i as int), n@) == 0);
            return c;
        }
        if bytes_eq(slice_subrange(h, i, i + n.len()), n) {
            proof {
                assert(h@.skip(i as int).take(n@.len() as int) =~= h@.subrange(
                    i as int,
                    i + n@.len(),
                ));
                assert(h@.skip(i as int).skip(n@.len() as int) =~= h@.skip(i + n@.len()));
            }
            c += 1;
            i += n.len();
        } else {
            proof {
                assert(h@.skip(i as int).take(n@.len() as int) =~= h@.subrange(
                    i as int,
                    i + n@.len(),
                ));
                assert(h@.skip(i as int).skip(1) =~= h@.skip(i + 1));
            }
            i += 1;
        }
    }
    assert(h@.skip(i as int).len() == 0);
    c
}

/// Drops one trailing carriage return, as `str::lines` does on a line
/// that a line feed terminated.
pub open spec fn spec_strip_cr(s: Seq<u8>) -> Seq<u8> {
    if s.len() > 0 && s[s.len() - 1] == 13 {
        s.take(s.len() - 1)
    } else {
        s
    }
}

/// The lines of `s`, split at `\n` or `\r\n`, without a final empty line,
/// following `str::lines`: an unterminated final line keeps its bytes.
pub open spec fn spec_lines(s: Seq<u8>) -> Seq<Seq<u8>>
    decreases s.len(),
    via spec_lines_dec
{
    if s.len() == 0 {
        Seq::empty()
    } else {
        let i = spec_find_idx(s, 10);
        if i == s.len() {
            seq![s.take(i)]
        } else {
            seq![spec_strip_cr(s.take(i))] + spec_lines(s.skip(i + 1))
        }
    }
}

#[via_fn]
proof fn spec_lines_dec(s: Seq<u8>) {
    broadcast use lemma_find_idx_bounds;

}

pub fn split_lines(s: &[u8]) -> (r: Vec<Vec<u8>>)
    ensures
        r.deep_view() == spec_lines(s@),
{
    let mut out: Vec<Vec<u8>> = Vec::new();
    let mut pos: usize = 0;
    proof {
        assert(s@.skip(0) =~= s@);
        assert(out.deep_view() + spec_lines(s@) =~~= spec_lines(s@));
    }
    while pos < s.len()
        invariant
            pos <= s@.len(),
            out.deep_view() + spec_lines(s@.skip(pos as int)) == spec_lines(s@),
        decreases s.len() - pos,
    {
        proof {
            broadcast use lemma_find_idx_bounds;
        }
        let sub = slice_subrange(s, pos, s.len());
        let i_rel = find_idx(sub, 10);
        let line_end = pos + i_rel;
        let mut line = slice_to_vec(slice_subrange(s, pos, line_end));
        proof {
            assert(s@.skip(pos as int).take(i_rel as int) =~= s@.subrange(
                pos as int,
                line_end as int,
            ));
        }
        if i_rel < sub.len() && line.len() > 0 && line[line.len() - 1] == 13 {
            let ghost full = line@;
            line.truncate(line.len() - 1);
            proof {
                assert(line@ =~= full.take(full.len() - 1));
            }
        }
        proof {
            if i_rel < sub.len() {
                assert(line@ == spec_strip_cr(s@.skip(pos as int).take(i_rel as int)));
            } else {
                assert(line@ == s@.skip(pos as int).take(i_rel as int));
            }
        }
        let ghost old_view = out.deep_view();
        out.push(line);
        proof {
            assert(out.deep_view() =~~= old_view + seq![line@]);
        }
        if i_rel == sub.len() {
            proof {
                assert(spec_lines(s@.skip(pos as int)) == seq![line@]);
                assert((old_view + seq![line@]) + spec_lines(Seq::<u8>::empty()) =~= old_view
                    + seq![line@]);
                assert(s@.skip(s@.len() as int) =~= Seq::<u8>::empty());
            }
            pos = s.len();
        } else {
            proof {
                assert(spec_lines(s@.skip(pos as int)) == seq![line@] + spec_lines(
                    s@.skip(pos as int).skip(i_rel + 1),
                ));
                assert(s@.skip(pos as int).skip(i_rel + 1) =~= s@.skip(pos + i_rel + 1));
                assert((old_view + seq![line@]) + spec_lines(s@.skip(pos + i_rel + 1)) =~= old_view
                    + (seq![line@] + spec_lines(s@.skip(pos + i_rel + 1))));
            }
            pos = line_end + 1;
        }
    }
    proof {
        assert(s@.skip(pos as int).len() == 0);
        assert(spec_lines(s@.skip(pos as int)) =~= Seq::<Seq<u8>>::empty());
        assert(out.deep_view() + Seq::<Seq<u8>>::empty() =~~= out.deep_view());
    }
    out
}

/// Copies `src` onto the end of `out`.
pub fn push_all(out: &mut Vec<u8>, src: &[u8])
    ensures
        final(out)@ == old(out)@ + src@,
{
    let mut i: usize = 0;
    while i < src.len()
        invariant
            i <= src@.len(),
            out@ == old(out)@ + src@.take(i as int),
        decreases src.len() - i,
    {
        out.push(src[i]);
        proof {
            assert(old(out)@ + src@.take(i + 1) =~= (old(out)@ + src@.take(i as int)).push(
                src@[i as int],
            ));
        }
        i += 1;
    }
    proof {
        assert(src@.take(i as int) =~= src@);
    }
}

/// The bytes of a string literal, as a vector.
pub fn lit(s: &str) -> (r: Vec<u8>)
    ensures
        r@ == s.spec_bytes(),
{
    slice_to_vec(s.as_bytes())
}

/// Drops every trailing newline or carriage return.
pub open spec fn spec_trim_newlines(s: Seq<u8>) -> Seq<u8>
    decreases s.len(),
{
    if s.len() > 0 && (s[s.len() - 1] == 10 || s[s.len() - 1] == 13) {
        spec_trim_newlines(s.take(s.len() - 1))
    } else {
        s
    }
}

pub fn trim_newlines(s: &[u8]) -> (r: Vec<u8>)
    ensures
        r@ == spec_trim_newlines(s@),
{
    let mut j: usize = s.len();
    proof {
        assert(s@.take(j as int) =~= s@);
    }
    while j > 0 && (s[j - 1] == 10 || s[j - 1] == 13)
        invariant
            j <= s@.len(),
            spec_trim_newlines(s@) == spec_trim_newlines(s@.take(j as int)),
        decreases j,
    {
        proof {
            assert(s@.take(j as int).take(j - 1) =~= s@.take(j - 1));
            assert(s@.take(j as int)[j - 1] == s@[j - 1]);
        }
        j -= 1;
    }
    assert(spec_trim_newlines(s@) == s@.take(j as int));
    slice_to_vec(slice_subrange(s, 0, j))
}

/// True when `n` occurs somewhere in `h` as a contiguous run.
pub open spec fn spec_contains(h: Seq<u8>, n: Seq<u8>) -> bool {
    exists|k: int| 0 <= k <= h.len() - n.len() && #[trigger] h.subrange(k, k + n.len()) == n
}

pub fn contains_sub(h: &[u8], n: &[u8]) -> (r: bool)
    ensures
        r == spec_contains(h@, n@),
{
    if n.len() > h.len() {
        assert(!spec_contains(h@, n@));
        return false;
    }
    if n.len() == 0 {
        proof {
            assert(h@.subrange(0, 0 + n@.len() as int) =~= n@);
        }
        return true;
    }
    let mut k: usize = 0;
    while k <= h.len() - n.len()
        invariant
            0 < n@.len() <= h@.len(),
            k <= h@.len() - n@.len() + 1,
            forall|m: int| 0 <= m < k ==> #[trigger] h@.subrange(m, m + n@.len()) != n@,
        decreases h.len() - n.len() + 1 - k,
    {
        if bytes_eq(slice_subrange(h, k, k + n.len()), n) {
            assert(h@.subrange(k as int, k + n@.len()) == n@);
            return true;
        }
        k += 1;
    }
    assert(!spec_contains(h@, n@));
    false
}

/// Index of the first ASCII whitespace byte, or `s.len()` if none.
pub open spec fn spec_find_ws(s: Seq<u8>) -> int
    decreases s.len(),
{
    if s.len() == 0 {
        0
    } else if is_ascii_ws(s[0]) {
        0
    } else {
        1 + spec_find_ws(s.skip(1))
    }
}

pub broadcast proof fn lemma_find_ws_bounds(s: Seq<u8>)
    ensures
        0 <= #[trigger] spec_find_ws(s) <= s.len(),
    decreases s.len(),
{
    if s.len() > 0 && !is_ascii_ws(s[0]) {
        lemma_find_ws_bounds(s.skip(1));
    }
}

/// The whitespace-separated tokens of `s`, as `str::split_whitespace`
/// yields them: maximal runs of non-whitespace bytes, in order.
pub open spec fn spec_tokens(s: Seq<u8>) -> Seq<Seq<u8>>
    decreases s.len(),
    via spec_tokens_dec
{
    if s.len() == 0 {
        Seq::empty()
    } else if is_ascii_ws(s[0]) {
        spec_tokens(s.skip(1))
    } else {
        let e = spec_find_ws(s);
        seq![s.take(e)] + spec_tokens(s.skip(e))
    }
}

#[via_fn]
proof fn spec_tokens_dec(s: Seq<u8>) {
    broadcast use lemma_find_ws_bounds;

    if s.len() > 0 && !is_ascii_ws(s[0]) {
        assert(spec_find_ws(s) == 1 + spec_find_ws(s.skip(1)));
    }
}

pub fn find_ws(s: &[u8]) -> (r: usize)
    ensures
        r == spec_find_ws(s@),
        0 <= r <= s@.len(),
{
    proof {
        broadcast use lemma_find_ws_bounds;

        assert(s@.skip(0) =~= s@);
    }
    let mut i: usize = 0;
    while i < s.len()
        invariant
            i <= s@.len(),
            spec_find_ws(s@) == i + spec_find_ws(s@.skip(i as int)),
        decreases s.len() - i,
    {
        proof {
            broadcast use lemma_find_ws_bounds;
        }
        if is_ws(s[i]) {
            assert(s@.skip(i as int)[0] == s@[i as int]);
            assert(spec_find_ws(s@.skip(i as int)) == 0);
            return i;
        }
        proof {
            assert(s@.skip(i as int)[0] == s@[i as int]);
            assert(s@.skip(i as int).skip(1) =~= s@.skip(i + 1));
        }
        i += 1;
    }
    assert(s@.skip(i as int).len() == 0);
    i
}

pub fn split_ws(s: &[u8]) -> (r: Vec<Vec<u8>>)
    ensures
        r.deep_view() == spec_tokens(s@),
{
    let mut out: Vec<Vec<u8>> = Vec::new();
    let mut pos: usize = 0;
    proof {
        assert(s@.skip(0) =~= s@);
        assert(out.deep_view() + spec_tokens(s@) =~~= spec_tokens(s@));
    }
    while pos < s.len()
        invariant
            pos <= s@.len(),
            out.deep_view() + spec_tokens(s@.skip(pos as int)) == spec_tokens(s@),
        decreases s.len() - pos,
    {
        proof {
            broadcast use lemma_find_ws_bounds;
        }
        if is_ws(s[pos]) {
            proof {
                assert(s@.skip(pos as int)[0] == s@[pos as int]);
                assert(s@.skip(pos as int).skip(1) =~= s@.skip(pos + 1));
            }
            pos += 1;
        } else {
            let sub = slice_subrange(s, pos, s.len());
            let e_rel = find_ws(sub);
            let tok = slice_to_vec(slice_subrange(s, pos, pos + e_rel));
            proof {
                assert(s@.skip(pos as int)[0] == s@[pos as int]);
                assert(s@.skip(pos as int).take(e_rel as int) =~= s@.subrange(
                    pos as int,
                    pos + e_rel,
                ));
                assert(s@.skip(pos as int).skip(e_rel as int) =~= s@.skip(pos + e_rel));
            }
            let ghost old_view = out.deep_view();
            let ghost rest = spec_tokens(s@.skip(pos + e_rel));
            out.push(tok);
            proof {
                assert(out.deep_view() =~~= old_view + seq![tok@]);
                assert(spec_tokens(s@.skip(pos as int)) == seq![tok@] + rest);
                assert((old_view + seq![tok@]) + rest =~= old_view + (seq![tok@] + rest));
            }
            pos = pos + e_rel;
        }
    }
    proof {
        assert(s@.skip(pos as int).len() == 0);
        assert(spec_tokens(s@.skip(pos as int)) =~~= Seq::<Seq<u8>>::empty());
        assert(out.deep_view() + Seq::<Seq<u8>>::empty() =~~= out.deep_view());
    }
    out
}

} // verus!
