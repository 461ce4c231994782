use vstd::prelude::*;
use vstd::slice::{slice_subrange, slice_to_vec};
use crate::bytes::{bytes_eq, lit, push_all};
use vstd::string::StringSliceAdditionalSpecFns;

verus! {

/// The key/value pairs a substitution map holds, as sequences.
pub open spec fn pairs_view(ps: Seq<(Vec<u8>, Vec<u8>)>) -> Seq<(Seq<u8>, Seq<u8>)> {
    ps.map_values(|p: (Vec<u8>, Vec<u8>)| (p.0@, p.1@))
}

/// The value of the first pair whose key is `key`.
pub open spec fn spec_lookup(ps: Seq<(Seq<u8>, Seq<u8>)>, key: Seq<u8>) -> Option<Seq<u8>>
    decreases ps.len(),
{
    if ps.len() == 0 {
        None
    } else if ps[0].0 == key {
        Some(ps[0].1)
    } else {
        spec_lookup(ps.skip(1), key)
    }
}

pub fn lookup(ps: &Vec<(Vec<u8>, Vec<u8>)>, key: &[u8]) -> (r: Option<Vec<u8>>)
    ensures
        match r {
            Some(v) => spec_lookup(pairs_view(ps@), key@) == Some(v@),
            None => spec_lookup(pairs_view(ps@), key@) is None,
        },
{
    let mut i: usize = 0;
    proof {
        assert(pairs_view(ps@).skip(0) =~= pairs_view(ps@));
    }
    while i < ps.len()
        invariant
            i <= ps@.len(),
            spec_lookup(pairs_view(ps@), key@) == spec_lookup(
                pairs_view(ps@).skip(i as int),
                key@,
            ),
        decreases ps.len() - i,
    {
        proof {
            assert(pairs_view(ps@).skip(i as int)[0] == (ps@[i as int].0@, ps@[i as int].1@));
            assert(pairs_view(ps@).skip(i as int).skip(1) =~= pairs_view(ps@).skip(i + 1));
        }
        if bytes_eq(ps[i].0.as_slice(), key) {
            return Some(slice_to_vec(ps[i].1.as_slice()));
        }
        i += 1;
    }
    assert(pairs_view(ps@).skip(i as int).len() == 0);
    None
}

/// First position at or after `j` holding a brace, or the end of `t`.
pub open spec fn spec_key_end(t: Seq<u8>, j: int) -> int
    decreases t.len() - j,
{
    if j >= t.len() {
        t.len() as int
    } else if t[j] == 123 || t[j] == 125 {
        j
    } else {
        spec_key_end(t, j + 1)
    }
}

pub proof fn lemma_key_end_bounds(t: Seq<u8>, j: int)
    requires
        0 <= j <= t.len(),
    ensures
        j <= spec_key_end(t, j) <= t.len(),
    decreases t.len() - j,
{
    if j < t.len() && t[j] != 123 && t[j] != 125 {
        lemma_key_end_bounds(t, j + 1);
    }
}

pub fn key_end(t: &[u8], start: usize) -> (r: usize)
    requires
        start <= t@.len(),
    ensures
        r == spec_key_end(t@, start as int),
        start <= r <= t@.len(),
{
    let mut j: usize = start;
    while j < t.len() && t[j] != 123 && t[j] != 125
        invariant
            start <= j <= t@.len(),
            spec_key_end(t@, start as int) == spec_key_end(t@, j as int),
        decreases t.len() - j,
    {
        j += 1;
    }
    j
}

/// One left-to-right pass over `t` from position `i`: each `{{name}}`
/// whose brace-free `name` is a key of `ps` is replaced by that key's
/// value, everything else is copied unchanged, and replaced text is not
/// scanned again.
pub open spec fn spec_render_from(t: Seq<u8>, ps: Seq<(Seq<u8>, Seq<u8>)>, i: int) -> Seq<u8>
    decreases t.len() - i,
    via spec_render_dec
{
    if i < 0 || i >= t.len() {
        Seq::empty()
    } else if i + 1 < t.len() && t[i] == 123 && t[i + 1] == 123 {
        let j = spec_key_end(t, i + 2);
        if j + 1 < t.len() && t[j] == 125 && t[j + 1] == 125 {
            match spec_lookup(ps, t.subrange(i + 2, j)) {
                Some(v) => v + spec_render_from(t, ps, j + 2),
                None => t.subrange(i, j + 2) + spec_render_from(t, ps, j + 2),
            }
        } else {
            seq![t[i]] + spec_render_from(t, ps, i + 1)
        }
    } else {
        seq![t[i]] + spec_render_from(t, ps, i + 1)
    }
}

#[via_fn]
proof fn spec_render_dec(t: Seq<u8>, ps: Seq<(Seq<u8>, Seq<u8>)>, i: int) {
    if 0 <= i && i + 1 < t.len() && t[i] == 123 && t[i + 1] == 123 {
        lemma_key_end_bounds(t, i + 2);
    }
}

/// The template `t` with every recognized `{{name}}` placeholder replaced
/// by its value from `ps`.
pub open spec fn spec_render(t: Seq<u8>, ps: Seq<(Seq<u8>, Seq<u8>)>) -> Seq<u8> {
    spec_render_from(t, ps, 0)
}

pub fn render(t: &[u8], ps: &Vec<(Vec<u8>, Vec<u8>)>) -> (r: Vec<u8>)
    ensures
        r@ == spec_render(t@, pairs_view(ps@)),
{
    let ghost pv = pairs_view(ps@);
    let mut out: Vec<u8> = Vec::new();
    let mut i: usize = 0;
    proof {
        assert(out@ + spec_render_from(t@, pv, 0) =~= spec_render_from(t@, pv, 0));
    }
    while i < t.len()
        invariant
            i <= t@.len(),
            pv == pairs_view(ps@),
            out@ + spec_render_from(t@, pv, i as int) == spec_render_from(t@, pv, 0),
        decreases t.len() - i,
    {
        let ghost old_out = out@;
        let mut plain: bool = true;
        if i + 1 < t.len() && t[i] == 123 && t[i + 1] == 123 {
            let j = key_end(t, i + 2);
            if j < t.len() && t[j] == 125 && j + 1 < t.len() && t[j + 1] == 125 {
                plain = false;
                let key = slice_subrange(t, i + 2, j);
                let ghost rest = spec_render_from(t@, pv, j + 2);
                match lookup(ps, key) {
                    Some(v) => {
                        push_all(&mut out, v.as_slice());
                        proof {
                            assert((old_out + v@) + rest =~= old_out + (v@ + rest));
                        }
                    },
                    None => {
                        push_all(&mut out, slice_subrange(t, i, j + 2));
                        proof {
                            assert((old_out + t@.subrange(i as int, j + 2)) + rest =~= old_out + (
                            t@.subrange(i as int, j + 2) + rest));
                        }
                    },
                }
                i = j + 2;
            }
        }
        if plain {
            out.push(t[i]);
            proof {
                let rest = spec_render_from(t@, pv, i + 1);
                assert(out@ =~= old_out + seq![t@[i as int]]);
                assert((old_out + seq![t@[i as int]]) + rest =~= old_out + (seq![t@[i as int]]
                    + rest));
            }
            i += 1;
        }
    }
    proof {
        assert(spec_render_from(t@, pv, i as int) == Seq::<u8>::empty());
        assert(out@ + Seq::<u8>::empty() =~= out@);
    }
    out
}

/// The fixed style table: text attributes and the eight foreground and
/// background colors, each mapped to its terminal escape sequence.
pub open spec fn spec_style_pairs() -> Seq<(Seq<u8>, Seq<u8>)> {
    seq![
        ("reset".spec_bytes(), "\x1b[0m".spec_bytes()),
        ("bold".spec_bytes(), "\x1b[1m".spec_bytes()),
        ("dim".spec_bytes(), "\x1b[2m".spec_bytes()),
        ("italic".spec_bytes(), "\x1b[3m".spec_bytes()),
        ("underline".spec_bytes(), "\x1b[4m".spec_bytes()),
        ("blink".spec_bytes(), "\x1b[5m".spec_bytes()),
        ("reverse".spec_bytes(), "\x1b[7m".spec_bytes()),
        ("hidden".spec_bytes(), "\x1b[8m".spec_bytes()),
        ("black".spec_bytes(), "\x1b[30m".spec_bytes()),
        ("red".spec_bytes(), "\x1b[31m".spec_bytes()),
        ("green".spec_bytes(), "\x1b[32m".spec_bytes()),
        ("yellow".spec_bytes(), "\x1b[33m".spec_bytes()),
        ("blue".spec_bytes(), "\x1b[34m".spec_bytes()),
        ("magenta".spec_bytes(), "\x1b[35m".spec_bytes()),
        ("cyan".spec_bytes(), "\x1b[36m".spec_bytes()),
        ("white".spec_bytes(), "\x1b[37m".spec_bytes()),
        ("bg_black".spec_bytes(), "\x1b[40m".spec_bytes()),
        ("bg_red".spec_bytes(), "\x1b[41m".spec_bytes()),
        ("bg_green".spec_bytes(), "\x1b[42m".spec_bytes()),
        ("bg_yellow".spec_bytes(), "\x1b[43m".spec_bytes()),
        ("bg_blue".spec_bytes(), "\x1b[44m".spec_bytes()),
        ("bg_magenta".spec_bytes(), "\x1b[45m".spec_bytes()),
        ("bg_cyan".spec_bytes(), "\x1b[46m".spec_bytes()),
        ("bg_white".spec_bytes(), "\x1b[47m".spec_bytes()),
    ]
}

/// Builds the style table.
#[verifier::rlimit(50)]
pub fn style_pairs() -> (r: Vec<(Vec<u8>, Vec<u8>)>)
    ensures
        pairs_view(r@) == spec_style_pairs(),
{
    let mut out: Vec<(Vec<u8>, Vec<u8>)> = Vec::new();
    out.push((lit("reset"), lit("\x1b[0m")));
    out.push((lit("bold"), lit("\x1b[1m")));
    out.push((lit("dim"), lit("\x1b[2m")));
    out.push((lit("italic"), lit("\x1b[3m")));
    out.push((lit("underline"), lit("\x1b[4m")));
    out.push((lit("blink"), lit("\x1b[5m")));
    out.push((lit("reverse"), lit("\x1b[7m")));
    out.push((lit("hidden"), lit("\x1b[8m")));
    out.push((lit("black"), lit("\x1b[30m")));
    out.push((lit("red"), lit("\x1b[31m")));
    out.push((lit("green"), lit("\x1b[32m")));
    out.push((lit("yellow"), lit("\x1b[33m")));
    out.push((lit("blue"), lit("\x1b[34m")));
    out.push((lit("magenta"), lit("\x1b[35m")));
    out.push((lit("cyan"), lit("\x1b[36m")));
    out.push((lit("white"), lit("\x1b[37m")));
    out.push((lit("bg_black"), lit("\x1b[40m")));
    out.push((lit("bg_red"), lit("\x1b[41m")));
    out.push((lit("bg_green"), lit("\x1b[42m")));
    out.push((lit("bg_yellow"), lit("\x1b[43m")));
    out.push((lit("bg_blue"), lit("\x1b[44m")));
    out.push((lit("bg_magenta"), lit("\x1b[45m")));
    out.push((lit("bg_cyan"), lit("\x1b[46m")));
    out.push((lit("bg_white"), lit("\x1b[47m")));
    proof {
        assert(pairs_view(out@) =~~= spec_style_pairs());
    }
    out
}

/// Law: a template in which no two adjacent bytes open a placeholder
/// renders to itself, whatever the dictionary holds.
pub proof fn lemma_render_no_placeholders(t: Seq<u8>, ps: Seq<(Seq<u8>, Seq<u8>)>)
    requires
        forall|i: int| 0 <= i < t.len() - 1 ==> !(t[i] == 123 && #[trigger] t[i + 1] == 123),
    ensures
        spec_render(t, ps) == t,
{
    lemma_render_plain_from(t, ps, 0);
    assert(t.skip(0) =~= t);
}

proof fn lemma_render_plain_from(t: Seq<u8>, ps: Seq<(Seq<u8>, Seq<u8>)>, i: int)
    requires
        0 <= i <= t.len(),
        forall|k: int| 0 <= k < t.len() - 1 ==> !(t[k] == 123 && #[trigger] t[k + 1] == 123),
    ensures
        spec_render_from(t, ps, i) == t.skip(i),
    decreases t.len() - i,
{
    if i >= t.len() {
        assert(t.skip(i).len() == 0);
        assert(spec_render_from(t, ps, i) =~= t.skip(i));
    } else {
        lemma_render_plain_from(t, ps, i + 1);
        assert(!(i + 1 < t.len() && t[i] == 123 && t[i + 1] == 123));
        assert(seq![t[i]] + t.skip(i + 1) =~= t.skip(i));
    }
}

proof fn lemma_key_end_region(t: Seq<u8>, j: int, e: int)
    requires
        0 <= j <= e <= t.len(),
        forall|k: int| j <= k < e ==> #[trigger] t[k] != 123 && t[k] != 125,
        e == t.len() || t[e] == 123 || t[e] == 125,
    ensures
        spec_key_end(t, j) == e,
    decreases e - j,
{
    if j < e {
        lemma_key_end_region(t, j + 1, e);
    }
}

/// Law: a placeholder whose brace-free name is not a key of the
/// dictionary passes through the renderer unchanged.
pub proof fn lemma_unknown_placeholder(key: Seq<u8>, ps: Seq<(Seq<u8>, Seq<u8>)>)
    requires
        forall|k: int| 0 <= k < key.len() ==> #[trigger] key[k] != 123 && key[k] != 125,
        spec_lookup(ps, key) is None,
    ensures
        spec_render(seq![123u8, 123u8] + key + seq![125u8, 125u8], ps) == seq![123u8, 123u8] + key
            + seq![125u8, 125u8],
{
    let t = seq![123u8, 123u8] + key + seq![125u8, 125u8];
    let n = key.len() as int;
    assert(t.len() == n + 4);
    assert(t[0] == 123 && t[1] == 123);
    assert(forall|k: int| 2 <= k < n + 2 ==> #[trigger] t[k] == key[k - 2]);
    lemma_key_end_region(t, 2, n + 2);
    assert(t[n + 2] == 125 && t[n + 3] == 125);
    assert(t.subrange(2, n + 2) =~= key);
    assert(spec_render_from(t, ps, n + 4) =~= Seq::<u8>::empty());
    assert(t.subrange(0, n + 4) =~= t);
    assert(spec_render_from(t, ps, 0) == t.subrange(0, n + 4) + spec_render_from(t, ps, n + 4));
    assert(t + Seq::<u8>::empty() =~= t);
}

/// Law: rendering reads the dictionary only through key lookup, so any
/// two pair lists that resolve every key alike render every template
/// alike; how the pairs happen to be laid out or iterated is invisible.
pub proof fn lemma_render_depends_on_lookup_only(
    t: Seq<u8>,
    p: Seq<(Seq<u8>, Seq<u8>)>,
    q: Seq<(Seq<u8>, Seq<u8>)>,
)
    requires
        forall|k: Seq<u8>| #[trigger] spec_lookup(p, k) == spec_lookup(q, k),
    ensures
        spec_render(t, p) == spec_render(t, q),
{
    lemma_render_lookup_from(t, p, q, 0);
}

proof fn lemma_render_lookup_from(
    t: Seq<u8>,
    p: Seq<(Seq<u8>, Seq<u8>)>,
    q: Seq<(Seq<u8>, Seq<u8>)>,
    i: int,
)
    requires
        forall|k: Seq<u8>| #[trigger] spec_lookup(p, k) == spec_lookup(q, k),
    ensures
        spec_render_from(t, p, i) == spec_render_from(t, q, i),
    decreases t.len() - i,
{
    if 0 <= i && i + 1 < t.len() && t[i] == 123 && t[i + 1] == 123 {
        let j = spec_key_end(t, i + 2);
        if j + 1 < t.len() && t[j] == 125 && t[j + 1] == 125 {
            lemma_key_end_bounds(t, i + 2);
            assert(spec_lookup(p, t.subrange(i + 2, j)) == spec_lookup(q, t.subrange(i + 2, j)));
            lemma_render_lookup_from(t, p, q, j + 2);
        } else {
            lemma_render_lookup_from(t, p, q, i + 1);
        }
    } else if 0 <= i && i < t.len() {
        lemma_render_lookup_from(t, p, q, i + 1);
    }
}

} // verus!
