//! Fixed-point playback rates.
//!
//! Playback speed and volume are handled as integer milli-units: a rate of
//! `1.5` is the value `1500`. The player clamps every requested rate into
//! the supported band `[0.1, 2.0]`, i.e. `[100, 2000]` milli-units.

use vstd::prelude::*;

verus! {

/// Lowest supported playback rate, in milli-units (0.1).
pub const MIN_RATE_MILLI: i64 = 100;

/// Highest supported playback rate, in milli-units (2.0).
pub const MAX_RATE_MILLI: i64 = 2000;

/// The rate a requested value is clamped to.
pub open spec fn spec_clamp_rate(v: int) -> int {
    if v < MIN_RATE_MILLI as int {
        MIN_RATE_MILLI as int
    } else if v > MAX_RATE_MILLI as int {
        MAX_RATE_MILLI as int
    } else {
        v
    }
}

/// Clamp a requested rate into the supported band `[100, 2000]`.
pub fn clamp_rate_milli(v: i64) -> (r: i64)
    ensures
        r == spec_clamp_rate(v as int),
{
    if v < MIN_RATE_MILLI {
        MIN_RATE_MILLI
    } else if v > MAX_RATE_MILLI {
        MAX_RATE_MILLI
    } else {
        v
    }
}

/// Whether a rate is acceptable as the initial playback speed given on the
/// command line: strictly between 0 and 2.0, exclusive at both ends.
pub open spec fn spec_speed_allowed(v: int) -> bool {
    0 < v < MAX_RATE_MILLI as int
}

/// Guard for the command-line speed argument.
pub fn speed_guard(v: i64) -> (r: bool)
    ensures
        r == spec_speed_allowed(v as int),
{
    0 < v && v < MAX_RATE_MILLI
}

/// Clamping lands in the supported band, pins each out-of-range side to the
/// nearest bound, and leaves in-range values unchanged.
pub proof fn lemma_clamp_rate(v: int)
    ensures
        MIN_RATE_MILLI as int <= spec_clamp_rate(v) <= MAX_RATE_MILLI as int,
        v < MIN_RATE_MILLI as int ==> spec_clamp_rate(v) == MIN_RATE_MILLI as int,
        v > MAX_RATE_MILLI as int ==> spec_clamp_rate(v) == MAX_RATE_MILLI as int,
        MIN_RATE_MILLI as int <= v <= MAX_RATE_MILLI as int ==> spec_clamp_rate(v) == v,
{
}


/// Decimal parsing saturates at this magnitude (one million million units,
/// in milli-units): any longer literal is pinned here, far above the band
/// the player clamps to.
pub const SAT_MILLI: i64 = 1000000000000000;

/// Whether `c` is a decimal digit.
pub open spec fn is_digit(c: char) -> bool {
    48 <= c as u32 <= 57
}

/// The numeric value of a digit character.
pub open spec fn digit_val(c: char) -> int {
    c as u32 - 48
}

/// Executable check of [`is_digit`].
pub fn char_is_digit(c: char) -> (r: bool)
    ensures
        r == is_digit(c),
{
    let v = c as u32;
    48 <= v && v <= 57
}

/// The value of a run of digits, most significant first.
pub open spec fn digits_val(s: Seq<char>) -> int
    decreases s.len(),
{
    if s.len() == 0 {
        0
    } else {
        digits_val(s.drop_last()) * 10 + digit_val(s.last())
    }
}

/// Ten to the power `n` (and 1 below zero).
pub open spec fn pow10(n: int) -> int
    decreases n,
{
    if n <= 0 {
        1
    } else {
        10 * pow10(n - 1)
    }
}

pub proof fn lemma_pow10_positive(n: int)
    ensures
        pow10(n) >= 1,
    decreases n,
{
    if n > 0 {
        lemma_pow10_positive(n - 1);
    }
}

pub proof fn lemma_pow10_mono(a: int, b: int)
    requires
        a <= b,
    ensures
        pow10(a) <= pow10(b),
    decreases b - a,
{
    if a < b {
        lemma_pow10_mono(a, b - 1);
        lemma_pow10_positive(b - 1);
        if b > 0 {
            assert(pow10(b) == 10 * pow10(b - 1));
        }
    }
}

/// A run of digits is non-negative and below ten to its length.
pub proof fn lemma_digits_val_bounds(s: Seq<char>)
    requires
        forall|k: int| 0 <= k < s.len() ==> is_digit(s[k]),
    ensures
        0 <= digits_val(s) < pow10(s.len() as int),
    decreases s.len(),
{
    if s.len() == 0 {
    } else {
        lemma_digits_val_bounds(s.drop_last());
        assert(is_digit(s.last()));
        assert(pow10(s.len() as int) == 10 * pow10(s.len() - 1));
    }
}

/// A run of digits that starts with a non-zero digit is at least ten to
/// the power of one less than its length.
pub proof fn lemma_digits_val_lower(s: Seq<char>)
    requires
        s.len() >= 1,
        forall|k: int| 0 <= k < s.len() ==> is_digit(s[k]),
        digit_val(s[0]) >= 1,
    ensures
        digits_val(s) >= pow10(s.len() - 1),
    decreases s.len(),
{
    reveal_with_fuel(digits_val, 2);
    if s.len() == 1 {
        assert(s.drop_last().len() == 0);
        assert(s.last() == s[0]);
        assert(digits_val(s) == digit_val(s[0]));
    } else {
        assert(s.drop_last()[0] == s[0]);
        lemma_digits_val_lower(s.drop_last());
        assert(is_digit(s.last()));
        assert(pow10(s.len() - 1) == 10 * pow10(s.len() - 2));
    }
}

/// A zero in front of a digit run does not change its value.
pub proof fn lemma_digits_val_leading_zero(t: Seq<char>)
    ensures
        digits_val(seq!['0'] + t) == digits_val(t),
    decreases t.len(),
{
    reveal_with_fuel(digits_val, 2);
    if t.len() == 0 {
        assert((seq!['0'] + t) =~= seq!['0']);
        assert(seq!['0'].drop_last() =~= Seq::<char>::empty());
        assert(digit_val('0') == 0);
    } else {
        assert((seq!['0'] + t).drop_last() =~= seq!['0'] + t.drop_last());
        assert((seq!['0'] + t).last() == t.last());
        lemma_digits_val_leading_zero(t.drop_last());
    }
}

/// Stripping a prefix of zeros does not change a digit run's value.
pub proof fn lemma_digits_val_strip_zeros(s: Seq<char>, k: int)
    requires
        0 <= k <= s.len(),
        forall|i: int| 0 <= i < k ==> s[i] == '0',
    ensures
        digits_val(s) == digits_val(s.skip(k)),
    decreases k,
{
    if k > 0 {
        let t = s.skip(1);
        assert(s =~= seq!['0'] + t);
        lemma_digits_val_leading_zero(t);
        lemma_digits_val_strip_zeros(t, k - 1);
        assert(t.skip(k - 1) =~= s.skip(k));
    } else {
        assert(s.skip(0) =~= s);
    }
}

/// The first position at or after `i` that holds a non-digit, or the end.
pub open spec fn digit_run_end(s: Seq<char>, i: int) -> int
    decreases s.len() - i,
{
    if i < 0 || i >= s.len() {
        s.len() as int
    } else if is_digit(s[i]) {
        digit_run_end(s, i + 1)
    } else {
        i
    }
}

pub proof fn lemma_digit_run_end_exact(s: Seq<char>, i: int, j: int)
    requires
        0 <= i <= j <= s.len(),
        forall|k: int| i <= k < j ==> is_digit(s[k]),
        j == s.len() || !is_digit(s[j]),
    ensures
        digit_run_end(s, i) == j,
    decreases j - i,
{
    if i < j {
        lemma_digit_run_end_exact(s, i + 1, j);
    }
}

/// How many leading characters of `s` belong to an explicit sign.
pub open spec fn sign_len(s: Seq<char>) -> int {
    if s.len() > 0 && (s[0] == '-' || s[0] == '+') {
        1
    } else {
        0
    }
}

/// Whether `s` carries an explicit minus sign.
pub open spec fn is_negative(s: Seq<char>) -> bool {
    s.len() > 0 && s[0] == '-'
}

/// Whether `s` is a plain decimal literal: an optional sign, then digits
/// with at most one point between or around them, and at least one digit.
pub open spec fn valid_decimal(s: Seq<char>) -> bool {
    let b = sign_len(s);
    let j = digit_run_end(s, b);
    if j == s.len() {
        j > b
    } else if s[j] == '.' {
        digit_run_end(s, j + 1) == s.len() && (j > b || j + 1 < s.len())
    } else {
        false
    }
}

/// The digits before the decimal point.
pub open spec fn int_part(s: Seq<char>) -> Seq<char> {
    s.subrange(sign_len(s), digit_run_end(s, sign_len(s)))
}

/// The digits after the decimal point, if any.
pub open spec fn frac_part(s: Seq<char>) -> Seq<char> {
    let j = digit_run_end(s, sign_len(s));
    if j == s.len() {
        Seq::empty()
    } else {
        s.subrange(j + 1, s.len() as int)
    }
}

/// The milli-units contributed by the fractional digits: the first three
/// of them, zero-padded on the right — further digits are cut off.
pub open spec fn frac_milli(f: Seq<char>) -> int {
    if f.len() >= 3 {
        digits_val(f.take(3))
    } else {
        digits_val(f) * pow10(3 - f.len())
    }
}

/// The value of a decimal literal in milli-units, fractional digits beyond
/// the third cut off.
pub open spec fn decimal_milli(s: Seq<char>) -> int {
    let mag = digits_val(int_part(s)) * 1000 + frac_milli(frac_part(s));
    if is_negative(s) {
        -mag
    } else {
        mag
    }
}

/// `x` pinned into the band the parser can represent.
pub open spec fn sat_milli(x: int) -> int {
    if x >= SAT_MILLI as int {
        SAT_MILLI as int
    } else if x <= -(SAT_MILLI as int) {
        -(SAT_MILLI as int)
    } else {
        x
    }
}

fn scan_digit_run(s: &str, from: usize) -> (j: usize)
    requires
        from as int <= s@.len(),
    ensures
        j as int == digit_run_end(s@, from as int),
        from <= j,
        j as int <= s@.len(),
        forall|k: int| from as int <= k < j as int ==> is_digit(s@[k]),
{
    let len = s.unicode_len();
    let mut j = from;
    while j < len && char_is_digit(s.get_char(j))
        invariant
            len == s@.len(),
            from <= j <= len,
            forall|k: int| from as int <= k < j as int ==> is_digit(s@[k]),
        decreases len - j,
    {
        j = j + 1;
    }
    proof {
        lemma_digit_run_end_exact(s@, from as int, j as int);
    }
    j
}


/// The fractional contribution is under one whole unit.
pub proof fn lemma_frac_milli_bounds(f: Seq<char>)
    requires
        forall|k: int| 0 <= k < f.len() ==> is_digit(f[k]),
    ensures
        0 <= frac_milli(f) < 1000,
{
    reveal_with_fuel(pow10, 4);
    assert(pow10(0) == 1);
    assert(pow10(1) == 10);
    assert(pow10(2) == 100);
    assert(pow10(3) == 1000);
    if f.len() >= 3 {
        assert(forall|k: int| 0 <= k < f.take(3).len() ==> is_digit(f.take(3)[k]));
        lemma_digits_val_bounds(f.take(3));
        assert(f.take(3).len() == 3);
        assert(frac_milli(f) == digits_val(f.take(3)));
    } else if f.len() == 0 {
        lemma_digits_val_bounds(f);
        assert(frac_milli(f) == digits_val(f) * 1000);
    } else if f.len() == 1 {
        lemma_digits_val_bounds(f);
        assert(digits_val(f) <= 9);
        assert(frac_milli(f) == digits_val(f) * 100);
    } else {
        lemma_digits_val_bounds(f);
        assert(digits_val(f) <= 99);
        assert(frac_milli(f) == digits_val(f) * 10);
    }
}

/// The small powers of ten the parser reasons with.
pub proof fn lemma_pow10_values()
    ensures
        pow10(0) == 1,
        pow10(1) == 10,
        pow10(2) == 100,
        pow10(3) == 1000,
        pow10(11) == 100000000000,
        pow10(12) == 1000000000000,
{
    reveal_with_fuel(pow10, 13);
}

fn accumulate_digits(s: &str, z: usize, j: usize) -> (acc: i64)
    requires
        z <= j,
        j as int <= s@.len(),
        j - z <= 12,
        forall|k: int| z as int <= k < j as int ==> is_digit(s@[k]),
    ensures
        acc as int == digits_val(s@.subrange(z as int, j as int)),
        0 <= acc as int,
        (acc as int) < pow10((j - z) as int),
{
    proof {
        assert(s@.subrange(z as int, z as int) =~= Seq::<char>::empty());
        lemma_pow10_values();
    }
    let mut acc: i64 = 0;
    let mut k = z;
    while k < j
        invariant
            z <= k <= j,
            j as int <= s@.len(),
            j - z <= 12,
            forall|kk: int| z as int <= kk < j as int ==> is_digit(s@[kk]),
            acc as int == digits_val(s@.subrange(z as int, k as int)),
            0 <= (acc as int) < pow10(k as int - z as int),
        decreases j - k,
    {
        let c = s.get_char(k);
        let d = (c as u32) - 48;
        proof {
            assert(is_digit(s@[k as int]));
            lemma_pow10_mono(k as int - z as int, 11);
            lemma_pow10_values();
            assert(s@.subrange(z as int, (k + 1) as int).drop_last() =~= s@.subrange(
                z as int,
                k as int,
            ));
            assert(s@.subrange(z as int, (k + 1) as int).last() == s@[k as int]);
            assert(pow10((k + 1) as int - z as int) == 10 * pow10(k as int - z as int));
        }
        acc = acc * 10 + (d as i64);
        k = k + 1;
    }
    acc
}

fn frac_digits_milli(s: &str, fstart: usize) -> (fm: i64)
    requires
        fstart as int <= s@.len(),
        forall|k: int| fstart as int <= k < s@.len() ==> is_digit(s@[k]),
    ensures
        fm as int == frac_milli(s@.subrange(fstart as int, s@.len() as int)),
        0 <= fm < 1000,
{
    let len = s.unicode_len();
    let ghost f = s@.subrange(fstart as int, len as int);
    proof {
        lemma_pow10_values();
        assert(forall|k: int| 0 <= k < f.len() ==> is_digit(#[trigger] f[k]));
    }
    let flen = len - fstart;
    if flen == 0 {
        proof {
            assert(f.len() == 0);
            assert(digits_val(f) == 0);
        }
        0
    } else {
        let d0 = ((s.get_char(fstart) as u32) - 48) as i64;
        proof {
            assert(f[0] == s@[fstart as int]);
            assert(is_digit(f[0]));
        }
        if flen == 1 {
            proof {
                reveal_with_fuel(digits_val, 2);
                assert(f.drop_last() =~= Seq::<char>::empty());
                assert(f.last() == f[0]);
                assert(frac_milli(f) == digit_val(f[0]) * 100);
            }
            d0 * 100
        } else {
            let d1 = ((s.get_char(fstart + 1) as u32) - 48) as i64;
            proof {
                assert(f[1] == s@[fstart + 1]);
                assert(is_digit(f[1]));
            }
            if flen == 2 {
                proof {
                    reveal_with_fuel(digits_val, 3);
                    assert(f.drop_last() =~= f.take(1));
                    assert(f.take(1).drop_last() =~= Seq::<char>::empty());
                    assert(f.take(1).last() == f[0]);
                    assert(f.last() == f[1]);
                    assert(digits_val(f) == digit_val(f[0]) * 10 + digit_val(f[1]));
                    assert(frac_milli(f) == digits_val(f) * 10);
                }
                d0 * 100 + d1 * 10
            } else {
                let d2 = ((s.get_char(fstart + 2) as u32) - 48) as i64;
                proof {
                    reveal_with_fuel(digits_val, 4);
                    assert(f[2] == s@[fstart + 2]);
                    assert(is_digit(f[2]));
                    let t3 = f.take(3);
                    assert(t3.drop_last() =~= f.take(2));
                    assert(f.take(2).drop_last() =~= f.take(1));
                    assert(f.take(1).drop_last() =~= Seq::<char>::empty());
                    assert(f.take(1).last() == f[0]);
                    assert(f.take(2).last() == f[1]);
                    assert(t3.last() == f[2]);
                    assert(digits_val(t3) == (digit_val(f[0]) * 10 + digit_val(f[1])) * 10
                        + digit_val(f[2]));
                    assert(frac_milli(f) == digits_val(t3));
                }
                d0 * 100 + d1 * 10 + d2
            }
        }
    }
}

/// Parse a plain decimal literal into milli-units: fractional digits
/// beyond the third are cut off, and overlong magnitudes are pinned at
/// [`SAT_MILLI`]. Returns `None` exactly when `s` is not such a literal.
#[verifier::loop_isolation(false)]
#[verifier::rlimit(100)]
pub fn parse_rate_milli(s: &str) -> (r: Option<i64>)
    ensures
        r is Some <==> valid_decimal(s@),
        r matches Some(m) ==> m as int == sat_milli(decimal_milli(s@)),
{
    let len = s.unicode_len();
    if len == 0 {
        return None;
    }
    let c0 = s.get_char(0);
    let neg = c0 == '-';
    let b: usize = if c0 == '-' || c0 == '+' {
        1
    } else {
        0
    };
    proof {
        assert(b as int == sign_len(s@));
        assert(neg == is_negative(s@));
    }
    let j = scan_digit_run(s, b);
    let mut fstart: usize = len;
    if j == len {
        if j == b {
            return None;
        }
    } else {
        if s.get_char(j) != '.' {
            return None;
        }
        let j2 = scan_digit_run(s, j + 1);
        if j2 < len {
            return None;
        }
        if j == b && j + 1 == len {
            return None;
        }
        fstart = j + 1;
    }
    proof {
        assert(valid_decimal(s@));
    }
    let ghost ip = s@.subrange(b as int, j as int);
    let ghost f = frac_part(s@);
    proof {
        assert(int_part(s@) =~= ip);
        if j == len {
            assert(f =~= s@.subrange(fstart as int, len as int));
        } else {
            assert(f =~= s@.subrange(fstart as int, len as int));
        }
        assert(forall|k: int| 0 <= k < f.len() ==> is_digit(#[trigger] f[k]));
        lemma_frac_milli_bounds(f);
        lemma_pow10_values();
    }
    let mut z = b;
    while z < j && s.get_char(z) == '0'
        invariant
            b <= z <= j,
            forall|k: int| b as int <= k < z as int ==> s@[k] == '0',
        decreases j - z,
    {
        z = z + 1;
    }
    let sig = j - z;
    let ghost zs = s@.subrange(z as int, j as int);
    proof {
        lemma_digits_val_strip_zeros(ip, z as int - b as int);
        assert(ip.skip(z as int - b as int) =~= zs);
        assert(digits_val(int_part(s@)) == digits_val(zs));
    }
    if sig > 12 {
        proof {
            assert(zs[0] == s@[z as int]);
            assert(is_digit(zs[0]));
            assert(zs[0] != '0');
            assert(digit_val(zs[0]) >= 1);
            lemma_digits_val_lower(zs);
            lemma_pow10_mono(12, sig - 1);
            assert(digits_val(zs) >= 1000000000000);
            assert(digits_val(int_part(s@)) * 1000 >= 1000000000000000);
        }
        if neg {
            Some(-SAT_MILLI)
        } else {
            Some(SAT_MILLI)
        }
    } else {
        let acc = accumulate_digits(s, z, j);
        proof {
            assert(acc as int == digits_val(zs));
            lemma_pow10_mono((j - z) as int, 12);
            assert((acc as int) < pow10(12));
        }
        let fm = frac_digits_milli(s, fstart);
        let mag = acc * 1000 + fm;
        proof {
            assert(fm as int == frac_milli(f));
            assert(mag as int == digits_val(int_part(s@)) * 1000 + frac_milli(f));
            assert((mag as int) < 1000000000000000);
            assert(sat_milli(decimal_milli(s@)) == decimal_milli(s@));
        }
        if neg {
            Some(-mag)
        } else {
            Some(mag)
        }
    }
}

} // verus!
