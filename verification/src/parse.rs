//! Verified parsers for the numeric wire fields: unsigned and signed
//! integers, and fixed-point decimals with four decimal places.
//!
//! The accepted decimal grammar is an optional sign, an integer part and an
//! optional fraction introduced by `.`, with at least one digit overall.
//! Fraction digits past the fourth are read but do not contribute to the
//! value.

use vstd::prelude::*;

verus! {

pub open spec fn is_digit_char(c: char) -> bool {
    48 <= c as int <= 57
}

pub open spec fn digit_char_val(c: char) -> int {
    c as int - 48
}

pub open spec fn all_digits(s: Seq<char>) -> bool {
    forall|i: int| 0 <= i < s.len() ==> is_digit_char(#[trigger] s[i])
}

/// Value of a digit string read in base ten.
pub open spec fn digits_val(s: Seq<char>) -> int
    decreases s.len(),
{
    if s.len() == 0 {
        0
    } else {
        digits_val(s.drop_last()) * 10 + digit_char_val(s.last())
    }
}

pub proof fn lemma_digits_val_nonneg(s: Seq<char>)
    requires
        all_digits(s),
    ensures
        digits_val(s) >= 0,
    decreases s.len(),
{
    if s.len() > 0 {
        assert(all_digits(s.drop_last()));
        lemma_digits_val_nonneg(s.drop_last());
    }
}

/// Appending one character to a digit string multiplies its value by ten
/// and adds the new digit.
pub proof fn lemma_digits_val_push(s: Seq<char>, c: char)
    ensures
        digits_val(s.push(c)) == digits_val(s) * 10 + digit_char_val(c),
{
    assert(s.push(c).drop_last() =~= s);
    assert(s.push(c).last() == c);
}

/// A prefix of a digit string never has a larger value than the whole.
pub proof fn lemma_digits_val_prefix_le(s: Seq<char>, j: int)
    requires
        all_digits(s),
        0 <= j <= s.len(),
    ensures
        digits_val(s.subrange(0, j)) <= digits_val(s),
    decreases s.len() - j,
{
    if j < s.len() {
        let p = s.subrange(0, j);
        let q = s.subrange(0, j + 1);
        assert(q =~= p.push(s[j]));
        lemma_digits_val_push(p, s[j]);
        assert(all_digits(p));
        lemma_digits_val_nonneg(p);
        assert(digits_val(p) <= digits_val(p) * 10);
        lemma_digits_val_prefix_le(s, j + 1);
    } else {
        assert(s.subrange(0, j) =~= s);
    }
}

pub open spec fn pow10(k: nat) -> int
    decreases k,
{
    if k == 0 {
        1
    } else {
        10 * pow10((k - 1) as nat)
    }
}

proof fn lemma_pow10_small()
    ensures
        pow10(0) == 1,
        pow10(1) == 10,
        pow10(2) == 100,
        pow10(3) == 1000,
        pow10(4) == 10000,
{
    assert(pow10(0) == 1);
    assert(pow10(1) == 10);
    assert(pow10(2) == 100);
    assert(pow10(3) == 1000);
    assert(pow10(4) == 10000);
}

/// A digit string of length `n` has value below `10^n`.
proof fn lemma_digits_val_bound(s: Seq<char>)
    requires
        all_digits(s),
    ensures
        digits_val(s) < pow10(s.len()),
    decreases s.len(),
{
    if s.len() > 0 {
        let p = s.drop_last();
        assert(all_digits(p));
        lemma_digits_val_bound(p);
        lemma_digits_val_nonneg(p);
        assert(digits_val(p) <= pow10(p.len()) - 1);
        assert(digits_val(p) * 10 <= (pow10(p.len()) - 1) * 10) by (nonlinear_arith)
            requires
                digits_val(p) <= pow10(p.len()) - 1,
        ;
        assert(pow10(s.len()) == 10 * pow10(p.len()));
    }
}

/// The value of a non-empty digit string, unless some character is not a
/// digit or the value exceeds `cap`.
pub open spec fn spec_digits_capped(t: Seq<char>, cap: u64) -> Option<u64> {
    if t.len() > 0 && all_digits(t) && digits_val(t) <= cap {
        Some(digits_val(t) as u64)
    } else {
        None
    }
}

/// Reads the digit string `s[from..to]` in base ten, rejecting non-digits
/// and any value above `cap`.
fn parse_digits_capped(s: &str, from: usize, to: usize, cap: u64) -> (r: Option<u64>)
    requires
        from <= to <= s@.len(),
    ensures
        r == spec_digits_capped(s@.subrange(from as int, to as int), cap),
        r matches Some(v) ==> v <= cap,
{
    let ghost t = s@.subrange(from as int, to as int);
    if from == to {
        return None;
    }
    let mut i: usize = from;
    let mut val: u64 = 0;
    while i < to
        invariant
            from <= i <= to <= s@.len(),
            t == s@.subrange(from as int, to as int),
            all_digits(t.subrange(0, i - from)),
            val == digits_val(t.subrange(0, i - from)),
            val <= cap,
        decreases to - i,
    {
        let c = s.get_char(i);
        proof {
            assert(t[i - from] == s@[i as int]);
        }
        let cv: u32 = c as u32;
        if cv < 48 || cv > 57 {
            proof {
                assert(!is_digit_char(t[i - from]));
            }
            return None;
        }
        let d: u64 = (cv - 48) as u64;
        proof {
            assert(t.subrange(0, i - from + 1) =~= t.subrange(0, i - from).push(t[i - from]));
            lemma_digits_val_push(t.subrange(0, i - from), t[i - from]);
        }
        if d > cap || val > (cap - d) / 10 {
            proof {
                if d > cap {
                    assert(val * 10 >= 0);
                } else {
                    assert(val * 10 + d > cap) by (nonlinear_arith)
                        requires
                            val > (cap - d) / 10,
                            0 <= d <= cap,
                            val >= 0,
                    ;
                }
                if all_digits(t) {
                    lemma_digits_val_prefix_le(t, i - from + 1);
                }
            }
            return None;
        }
        proof {
            assert(val * 10 + d <= cap) by (nonlinear_arith)
                requires
                    val <= (cap - d) / 10,
                    0 <= d <= cap,
                    val >= 0,
            ;
        }
        val = val * 10 + d;
        i = i + 1;
    }
    proof {
        assert(t.subrange(0, i - from) =~= t);
    }
    Some(val)
}

/// Drops one leading `+`, the sign that an unsigned read accepts.
pub open spec fn strip_plus(s: Seq<char>) -> Seq<char> {
    if s.len() > 0 && s[0] == '+' {
        s.drop_first()
    } else {
        s
    }
}

/// An unsigned integer: an optional `+`, then one or more digits, with a
/// value that fits in `usize`.
pub open spec fn spec_parse_usize(s: Seq<char>) -> Option<usize> {
    match spec_digits_capped(strip_plus(s), usize::MAX as u64) {
        Some(v) => Some(v as usize),
        None => None,
    }
}

pub fn parse_usize(s: &str) -> (r: Option<usize>)
    ensures
        r == spec_parse_usize(s@),
{
    let n = s.unicode_len();
    let from: usize = if n > 0 && s.get_char(0) == '+' {
        1
    } else {
        0
    };
    proof {
        assert(s@.subrange(from as int, n as int) =~= strip_plus(s@));
    }
    match parse_digits_capped(s, from, n, usize::MAX as u64) {
        Some(v) => Some(v as usize),
        None => None,
    }
}

/// A signed 32-bit integer: an optional sign, then one or more digits,
/// with a value in the `i32` range.
pub open spec fn spec_parse_i32(s: Seq<char>) -> Option<i32> {
    if s.len() > 0 && s[0] == '-' {
        match spec_digits_capped(s.drop_first(), 2147483648u64) {
            Some(v) => Some((-(v as int)) as i32),
            None => None,
        }
    } else {
        match spec_digits_capped(strip_plus(s), 2147483647u64) {
            Some(v) => Some(v as i32),
            None => None,
        }
    }
}

pub fn parse_i32(s: &str) -> (r: Option<i32>)
    ensures
        r == spec_parse_i32(s@),
{
    let n = s.unicode_len();
    if n > 0 && s.get_char(0) == '-' {
        proof {
            assert(s@.subrange(1, n as int) =~= s@.drop_first());
        }
        match parse_digits_capped(s, 1, n, 2147483648u64) {
            Some(v) => {
                if v == 2147483648u64 {
                    Some(i32::MIN)
                } else {
                    Some(-(v as i32))
                }
            },
            None => None,
        }
    } else {
        let from: usize = if n > 0 && s.get_char(0) == '+' {
            1
        } else {
            0
        };
        proof {
            assert(s@.subrange(from as int, n as int) =~= strip_plus(s@));
        }
        match parse_digits_capped(s, from, n, 2147483647u64) {
            Some(v) => Some(v as i32),
            None => None,
        }
    }
}

pub open spec fn has_dot(t: Seq<char>) -> bool {
    exists|i: int| 0 <= i < t.len() && t[i] == '.'
}

/// Index of the first `.` in `t`; meaningful only when `has_dot(t)`.
pub open spec fn first_dot(t: Seq<char>) -> int
    decreases t.len(),
{
    if t.len() == 0 {
        0
    } else if t[0] == '.' {
        0
    } else {
        1 + first_dot(t.drop_first())
    }
}

/// If position `k` holds the first `.` of `t`, then `first_dot(t) == k`.
proof fn lemma_first_dot_from_witness(t: Seq<char>, k: int)
    requires
        0 <= k < t.len(),
        t[k] == '.',
        forall|j: int| 0 <= j < k ==> t[j] != '.',
    ensures
        has_dot(t),
        first_dot(t) == k,
    decreases t.len(),
{
    if k > 0 {
        let u = t.drop_first();
        assert(u[k - 1] == '.');
        assert forall|j: int| 0 <= j < k - 1 implies u[j] != '.' by {
            assert(u[j] == t[j + 1]);
        }
        lemma_first_dot_from_witness(u, k - 1);
    }
}

/// Scans `s[from..to]` for the first dot.
fn find_dot(s: &str, from: usize, to: usize) -> (r: Option<usize>)
    requires
        from <= to <= s@.len(),
    ensures
        ({
            let t = s@.subrange(from as int, to as int);
            match r {
                Some(i) => from <= i < to && has_dot(t) && first_dot(t) == i - from,
                None => !has_dot(t),
            }
        }),
{
    let ghost t = s@.subrange(from as int, to as int);
    let mut i: usize = from;
    while i < to
        invariant
            from <= i <= to <= s@.len(),
            t == s@.subrange(from as int, to as int),
            forall|j: int| 0 <= j < i - from ==> t[j] != '.',
        decreases to - i,
    {
        let c = s.get_char(i);
        proof {
            assert(t[i - from] == s@[i as int]);
        }
        if c == '.' {
            proof {
                lemma_first_dot_from_witness(t, i - from);
            }
            return Some(i);
        }
        i = i + 1;
    }
    proof {
        assert(!has_dot(t)) by {
            if has_dot(t) {
                let w = choose|k: int| 0 <= k < t.len() && t[k] == '.';
                assert(t[w] != '.');
            }
        }
    }
    None
}

/// Checks that every character of `s[from..to]` is a digit.
fn check_all_digits(s: &str, from: usize, to: usize) -> (r: bool)
    requires
        from <= to <= s@.len(),
    ensures
        r == all_digits(s@.subrange(from as int, to as int)),
{
    let ghost t = s@.subrange(from as int, to as int);
    let mut i: usize = from;
    while i < to
        invariant
            from <= i <= to <= s@.len(),
            t == s@.subrange(from as int, to as int),
            all_digits(t.subrange(0, i - from)),
        decreases to - i,
    {
        let c = s.get_char(i);
        let cv: u32 = c as u32;
        proof {
            assert(t[i - from] == s@[i as int]);
        }
        if cv < 48 || cv > 57 {
            proof {
                assert(!is_digit_char(t[i - from]));
            }
            return false;
        }
        proof {
            assert(t.subrange(0, i - from + 1) =~= t.subrange(0, i - from).push(t[i - from]));
        }
        i = i + 1;
    }
    proof {
        assert(t.subrange(0, i - from) =~= t);
    }
    true
}

/// Value contributed by the fraction digits, scaled to four decimal
/// places; digits past the fourth are dropped.
pub open spec fn frac4_val(f: Seq<char>) -> int {
    if f.len() >= 4 {
        digits_val(f.subrange(0, 4))
    } else {
        digits_val(f) * pow10((4 - f.len()) as nat)
    }
}

/// Reads the fraction digits `s[from..to]`, already checked to be digits,
/// as a value scaled to four decimal places.
fn parse_frac4(s: &str, from: usize, to: usize) -> (r: u64)
    requires
        from <= to <= s@.len(),
        all_digits(s@.subrange(from as int, to as int)),
    ensures
        r == frac4_val(s@.subrange(from as int, to as int)),
        r <= 9999,
{
    let ghost f = s@.subrange(from as int, to as int);
    let len: usize = to - from;
    let keep: usize = if len > 4 {
        4
    } else {
        len
    };
    let ghost fk = s@.subrange(from as int, (from + keep) as int);
    proof {
        lemma_pow10_small();
        assert(fk =~= f.subrange(0, keep as int));
        assert(all_digits(fk));
        lemma_digits_val_nonneg(fk);
        lemma_digits_val_bound(fk);
    }
    let d: u64 = match parse_digits_capped(s, from, from + keep, 9999) {
        Some(v) => v,
        None => 0,
    };
    proof {
        if keep == 0 {
            assert(fk =~= Seq::<char>::empty());
        }
        assert(d == digits_val(fk));
        if f.len() < 4 {
            assert(fk =~= f);
        }
    }
    if len >= 4 {
        d
    } else if len == 3 {
        d * 10
    } else if len == 2 {
        d * 100
    } else if len == 1 {
        d * 1000
    } else {
        0
    }
}

/// Magnitude of an unsigned decimal in fixed-point, scaled by 10_000:
/// either all digits, or digits split by a single dot with at least one
/// digit overall.
pub open spec fn spec_fixed4_mag(t: Seq<char>) -> Option<int> {
    if has_dot(t) {
        let i = first_dot(t);
        let ip = t.subrange(0, i);
        let fp = t.subrange(i + 1, t.len() as int);
        if ip.len() + fp.len() > 0 && all_digits(ip) && all_digits(fp) {
            Some(digits_val(ip) * 10000 + frac4_val(fp))
        } else {
            None
        }
    } else {
        if t.len() > 0 && all_digits(t) {
            Some(digits_val(t) * 10000)
        } else {
            None
        }
    }
}

/// A fixed-point decimal with four decimal places: an optional sign and a
/// magnitude per `spec_fixed4_mag`, fitting in `i64`.
pub open spec fn spec_parse_fixed4(s: Seq<char>) -> Option<i64> {
    let neg = s.len() > 0 && s[0] == '-';
    let t = if s.len() > 0 && (s[0] == '-' || s[0] == '+') {
        s.drop_first()
    } else {
        s
    };
    match spec_fixed4_mag(t) {
        Some(m) => if m <= i64::MAX {
            Some((if neg { -m } else { m }) as i64)
        } else {
            None
        },
        None => None,
    }
}

pub fn parse_fixed4(s: &str) -> (r: Option<i64>)
    ensures
        r == spec_parse_fixed4(s@),
{
    let n = s.unicode_len();
    let mut neg = false;
    let mut from: usize = 0;
    if n > 0 {
        let c0 = s.get_char(0);
        if c0 == '-' {
            neg = true;
            from = 1;
        } else if c0 == '+' {
            from = 1;
        }
    }
    let ghost t = if s@.len() > 0 && (s@[0] == '-' || s@[0] == '+') {
        s@.drop_first()
    } else {
        s@
    };
    proof {
        assert(t =~= s@.subrange(from as int, n as int));
    }
    match find_dot(s, from, n) {
        Some(dot) => {
            let ghost ip = t.subrange(0, dot - from);
            let ghost fp = t.subrange(dot - from + 1, t.len() as int);
            if dot == from && dot + 1 == n {
                // a bare dot carries no digit at all
                return None;
            }
            proof {
                assert(fp =~= s@.subrange(dot as int + 1, n as int));
            }
            if !check_all_digits(s, dot + 1, n) {
                return None;
            }
            let f4: u64 = parse_frac4(s, dot + 1, n);
            let mut ipv: u64 = 0;
            if dot > from {
                proof {
                    assert(ip =~= s@.subrange(from as int, dot as int));
                }
                let cap: u64 = ((i64::MAX as u64) - f4) / 10000;
                match parse_digits_capped(s, from, dot, cap) {
                    Some(v) => {
                        proof {
                            lemma_digits_val_nonneg(ip);
                        }
                        ipv = v;
                    },
                    None => {
                        proof {
                            if all_digits(ip) {
                                assert(digits_val(ip) > cap);
                                assert(digits_val(ip) * 10000 + frac4_val(fp) > i64::MAX)
                                    by (nonlinear_arith)
                                    requires
                                        digits_val(ip) > ((i64::MAX as u64) - f4) / 10000,
                                        0 <= f4 <= 9999,
                                        f4 == frac4_val(fp),
                                ;
                            }
                        }
                        return None;
                    },
                }
            } else {
                proof {
                    assert(ip =~= Seq::<char>::empty());
                }
            }
            proof {
                assert(ipv * 10000 + f4 <= i64::MAX) by (nonlinear_arith)
                    requires
                        f4 <= 9999,
                        ipv == 0 || ipv <= ((i64::MAX as u64) - f4) / 10000,
                ;
                assert(ipv == digits_val(ip));
                assert(f4 == frac4_val(fp));
            }
            let m: u64 = ipv * 10000 + f4;
            if neg {
                Some(-(m as i64))
            } else {
                Some(m as i64)
            }
        },
        None => {
            if from == n {
                return None;
            }
            let cap: u64 = (i64::MAX as u64) / 10000;
            match parse_digits_capped(s, from, n, cap) {
                Some(v) => {
                    proof {
                        lemma_digits_val_nonneg(t);
                        assert(v * 10000 <= i64::MAX) by (nonlinear_arith)
                            requires
                                v <= (i64::MAX as u64) / 10000,
                        ;
                    }
                    let m: u64 = v * 10000;
                    if neg {
                        Some(-(m as i64))
                    } else {
                        Some(m as i64)
                    }
                },
                None => {
                    proof {
                        if all_digits(t) {
                            assert(digits_val(t) > cap);
                            assert(digits_val(t) * 10000 > i64::MAX) by (nonlinear_arith)
                                requires
                                    digits_val(t) > (i64::MAX as u64) / 10000,
                            ;
                        }
                    }
                    None
                },
            }
        },
    }
}

} // verus!
