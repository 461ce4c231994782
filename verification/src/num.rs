use vstd::prelude::*;

verus! {

pub open spec fn is_digit(b: u8) -> bool {
    48 <= b && b <= 57
}

pub open spec fn all_digits(s: Seq<u8>) -> bool {
    forall|k: int| 0 <= k < s.len() ==> is_digit(#[trigger] s[k])
}

/// The number that the digit string `s` denotes in decimal.
pub open spec fn spec_val(s: Seq<u8>) -> int
    decreases s.len(),
{
    if s.len() == 0 {
        0
    } else {
        spec_val(s.take(s.len() - 1)) * 10 + (s[s.len() - 1] - 48)
    }
}

pub proof fn lemma_val_nonneg(s: Seq<u8>)
    requires
        all_digits(s),
    ensures
        spec_val(s) >= 0,
    decreases s.len(),
{
    if s.len() > 0 {
        assert(all_digits(s.take(s.len() - 1)));
        lemma_val_nonneg(s.take(s.len() - 1));
    }
}

pub proof fn lemma_val_prefix_le(s: Seq<u8>, i: int)
    requires
        all_digits(s),
        0 <= i <= s.len(),
    ensures
        spec_val(s.take(i)) <= spec_val(s),
    decreases s.len() - i,
{
    if i < s.len() {
        lemma_val_prefix_le(s, i + 1);
        assert(s.take(i + 1).take(i) =~= s.take(i));
        assert(all_digits(s.take(i)));
        lemma_val_nonneg(s.take(i));
        assert(spec_val(s.take(i + 1)) == spec_val(s.take(i)) * 10 + (s[i] - 48));
    } else {
        assert(s.take(i) =~= s);
    }
}

/// `str::parse::<u64>` accepts an optional leading plus sign; the digits follow.
pub open spec fn spec_digit_part(s: Seq<u8>) -> Seq<u8> {
    if s.len() > 0 && s[0] == 43 {
        s.skip(1)
    } else {
        s
    }
}

/// The value a decimal parse of `s` yields, `None` where the text is not
/// a plain non-negative decimal or its value does not fit in `u64`.
pub open spec fn spec_parse_u64(s: Seq<u8>) -> Option<u64> {
    let t = spec_digit_part(s);
    if t.len() > 0 && all_digits(t) && spec_val(t) <= u64::MAX {
        Some(spec_val(t) as u64)
    } else {
        None
    }
}

pub fn parse_u64(s: &[u8]) -> (r: Option<u64>)
    ensures
        r == spec_parse_u64(s@),
{
    let start: usize = if s.len() > 0 && s[0] == 43 {
        1
    } else {
        0
    };
    let ghost t = spec_digit_part(s@);
    proof {
        assert(s@.skip(0) =~= s@);
        assert(t =~= s@.skip(start as int));
    }
    if start == s.len() {
        assert(t.len() == 0);
        return None;
    }
    let mut acc: u64 = 0;
    let mut i: usize = start;
    proof {
        assert(t.take(0) =~= Seq::<u8>::empty());
    }
    while i < s.len()
        invariant
            start <= i <= s@.len(),
            t == s@.skip(start as int),
            t == spec_digit_part(s@),
            all_digits(t.take(i - start)),
            acc == spec_val(t.take(i - start)),
        decreases s.len() - i,
    {
        let b = s[i];
        proof {
            assert(t[i - start] == s@[i as int]);
            assert(t.take(i - start + 1).take(i - start) =~= t.take(i - start));
            assert(t.take(i - start + 1)[i - start] == s@[i as int]);
        }
        if b < 48 || b > 57 {
            assert(!is_digit(t[i - start]));
            return None;
        }
        let wide: u128 = (acc as u128) * 10 + ((b - 48) as u128);
        proof {
            assert(all_digits(t.take(i - start + 1)));
            assert(spec_val(t.take(i - start + 1)) == acc * 10 + (b - 48));
        }
        if wide > u64::MAX as u128 {
            proof {
                if all_digits(t) {
                    lemma_val_prefix_le(t, i - start + 1);
                }
            }
            return None;
        }
        acc = wide as u64;
        i += 1;
    }
    proof {
        assert(t.take(i - start) =~= t);
    }
    Some(acc)
}

/// As `spec_parse_u64`, with `u32`'s bound.
pub open spec fn spec_parse_u32(s: Seq<u8>) -> Option<u32> {
    let t = spec_digit_part(s);
    if t.len() > 0 && all_digits(t) && spec_val(t) <= u32::MAX {
        Some(spec_val(t) as u32)
    } else {
        None
    }
}

pub fn parse_u32(s: &[u8]) -> (r: Option<u32>)
    ensures
        r == spec_parse_u32(s@),
{
    proof {
        let t = spec_digit_part(s@);
        if t.len() > 0 && all_digits(t) {
            lemma_val_nonneg(t);
        }
    }
    match parse_u64(s) {
        Some(v) => {
            if v <= u32::MAX as u64 {
                Some(v as u32)
            } else {
                None
            }
        },
        None => None,
    }
}

/// The decimal digits of `n`, most significant first.
pub open spec fn spec_dec(n: nat) -> Seq<u8>
    decreases n,
{
    if n < 10 {
        seq![(48 + n) as u8]
    } else {
        spec_dec(n / 10).push((48 + n % 10) as u8)
    }
}

pub fn u128_to_dec(n: u128) -> (r: Vec<u8>)
    ensures
        r@ == spec_dec(n as nat),
    decreases n,
{
    if n < 10 {
        let mut v: Vec<u8> = Vec::new();
        v.push(48 + n as u8);
        proof {
            assert(v@ =~= seq![(48 + n as nat) as u8]);
        }
        v
    } else {
        let mut v = u128_to_dec(n / 10);
        v.push(48 + (n % 10) as u8);
        v
    }
}

pub fn u64_to_dec(n: u64) -> (r: Vec<u8>)
    ensures
        r@ == spec_dec(n as nat),
{
    u128_to_dec(n as u128)
}

/// `num / den` scaled to hundredths and rounded to the nearest, halves up.
pub open spec fn spec_round_hundredths(num: int, den: int) -> int {
    (200 * num + den) / (2 * den)
}

/// The decimal rendering of `num / den` with exactly two digits after the
/// point, the way a fixed `%.2f` format writes a non-negative value.
pub open spec fn spec_2dp(num: int, den: int) -> Seq<u8> {
    let h = spec_round_hundredths(num, den);
    let f = h % 100;
    spec_dec((h / 100) as nat) + seq![46u8, (48 + f / 10) as u8, (48 + f % 10) as u8]
}

pub fn format_2dp(num: u128, den: u128) -> (r: Vec<u8>)
    requires
        0 < den <= u64::MAX,
        num <= 100 * (u64::MAX as u128),
    ensures
        r@ == spec_2dp(num as int, den as int),
{
    let h: u128 = (200 * num + den) / (2 * den);
    let ip: u128 = h / 100;
    let f: u128 = h % 100;
    let mut out = u128_to_dec(ip);
    out.push(46);
    out.push(48 + (f / 10) as u8);
    out.push(48 + (f % 10) as u8);
    proof {
        assert(h == spec_round_hundredths(num as int, den as int));
        assert(out@ =~= spec_dec(ip as nat) + seq![
            46u8,
            (48 + (h % 100) / 10) as u8,
            (48 + (h % 100) % 10) as u8,
        ]);
    }
    out
}

} // verus!
