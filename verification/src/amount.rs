use vstd::prelude::*;

verus! {

/// Largest storable amount in minor units: a `DECIMAL(10, 2)` column keeps
/// at most eight integer digits and two fraction digits.
pub const MAX_AMOUNT_MINOR: u64 = 9_999_999_999;

/// A decimal digit `'0'` through `'9'`.
pub open spec fn is_dec_digit(c: char) -> bool {
    48 <= c as int <= 57
}

/// The numeric value of a decimal digit.
pub open spec fn dec_digit_value(c: char) -> int {
    c as int - 48
}

pub open spec fn all_dec_digits(s: Seq<char>) -> bool {
    forall|i: int| 0 <= i < s.len() ==> is_dec_digit(s[i])
}

/// The value of a string of decimal digits, most significant first.
pub open spec fn dec_digits_value(s: Seq<char>) -> int
    decreases s.len(),
{
    if s.len() == 0 {
        0
    } else {
        dec_digits_value(s.drop_last()) * 10 + dec_digit_value(s.last())
    }
}

/// A well-formed integer part: one to eight decimal digits.
pub open spec fn valid_integer_part(s: Seq<char>) -> bool {
    1 <= s.len() <= 8 && all_dec_digits(s)
}

/// The exact value, in minor units (hundredths), of a decimal amount
/// literal: an integer part of one to eight digits, optionally followed by
/// a point and one or two fraction digits. Anything else, a sign or an
/// exponent included, is not an amount.
pub open spec fn amount_of(s: Seq<char>) -> Option<int> {
    if valid_integer_part(s) {
        Some(dec_digits_value(s) * 100)
    } else if s.len() >= 2 && s[s.len() - 2] == '.' && valid_integer_part(s.take(s.len() - 2))
        && is_dec_digit(s.last()) {
        Some(dec_digits_value(s.take(s.len() - 2)) * 100 + dec_digit_value(s.last()) * 10)
    } else if s.len() >= 3 && s[s.len() - 3] == '.' && valid_integer_part(s.take(s.len() - 3))
        && is_dec_digit(s[s.len() - 2]) && is_dec_digit(s.last()) {
        Some(
            dec_digits_value(s.take(s.len() - 3)) * 100 + dec_digit_value(s[s.len() - 2]) * 10
                + dec_digit_value(s.last()),
        )
    } else {
        None
    }
}

pub open spec fn spec_pow10(n: nat) -> int
    decreases n,
{
    if n == 0 {
        1
    } else {
        10 * spec_pow10((n - 1) as nat)
    }
}

proof fn lemma_pow10_pos(n: nat)
    ensures
        spec_pow10(n) >= 1,
    decreases n,
{
    if n > 0 {
        lemma_pow10_pos((n - 1) as nat);
    }
}

proof fn lemma_pow10_monotone(a: nat, b: nat)
    requires
        a <= b,
    ensures
        spec_pow10(a) <= spec_pow10(b),
    decreases b,
{
    if a < b {
        lemma_pow10_monotone(a, (b - 1) as nat);
        lemma_pow10_pos((b - 1) as nat);
    }
}

proof fn lemma_dec_digits_value_bound(s: Seq<char>)
    requires
        all_dec_digits(s),
    ensures
        0 <= dec_digits_value(s) < spec_pow10(s.len()),
    decreases s.len(),
{
    if s.len() > 0 {
        assert(all_dec_digits(s.drop_last()));
        lemma_dec_digits_value_bound(s.drop_last());
    }
}

/// A non-negative fixed-point money amount with two decimal places, held
/// exactly as a count of minor units. Money is never binary floating point.
#[derive(Clone, Copy, PartialEq, Eq, Structural, Debug)]
pub struct Amount {
    minor: u64,
}

impl Amount {
    /// The exact value in minor units.
    pub closed spec fn view(&self) -> int {
        self.minor as int
    }

    pub open spec fn wf(&self) -> bool {
        self@ <= MAX_AMOUNT_MINOR as int
    }

    /// An amount from a count of minor units, within the storable range.
    pub fn from_minor(minor: u64) -> (r: Option<Amount>)
        ensures
            match r {
                Some(a) => minor <= MAX_AMOUNT_MINOR && a@ == minor && a.wf(),
                None => minor > MAX_AMOUNT_MINOR,
            },
    {
        if minor <= MAX_AMOUNT_MINOR {
            Some(Amount { minor })
        } else {
            None
        }
    }

    /// The value in minor units.
    pub fn minor_units(&self) -> (m: u64)
        ensures
            m == self@,
    {
        self.minor
    }

    /// Parses a decimal amount literal exactly; returns the amount whose
    /// value `amount_of` gives to the string, and `None` on any string that
    /// is not an amount.
    pub fn parse(s: &str) -> (r: Option<Amount>)
        ensures
            match r {
                Some(a) => amount_of(s@) == Some(a@) && a.wf(),
                None => amount_of(s@) is None,
            },
    {
        let n = s.unicode_len();
        if n >= 2 && s.get_char(n - 2) == '.' {
            proof {
                // the point itself is not a digit, so neither whole-string
                // branch of `amount_of` applies
                assert(!is_dec_digit(s@[s@.len() - 2]));
                assert(!all_dec_digits(s@));
            }
            let d1 = match digit_at(s, n - 1) {
                Some(d) => d,
                None => {
                    return None;
                },
            };
            let int_val = match parse_integer_part(s, n - 2) {
                Some(v) => v,
                None => {
                    return None;
                },
            };
            Some(Amount { minor: int_val * 100 + d1 * 10 })
        } else if n >= 3 && s.get_char(n - 3) == '.' {
            proof {
                assert(!is_dec_digit(s@[s@.len() - 3]));
                assert(!all_dec_digits(s@));
            }
            let d1 = match digit_at(s, n - 2) {
                Some(d) => d,
                None => {
                    return None;
                },
            };
            let d2 = match digit_at(s, n - 1) {
                Some(d) => d,
                None => {
                    return None;
                },
            };
            let int_val = match parse_integer_part(s, n - 3) {
                Some(v) => v,
                None => {
                    return None;
                },
            };
            Some(Amount { minor: int_val * 100 + d1 * 10 + d2 })
        } else {
            let int_val = match parse_integer_part(s, n) {
                Some(v) => v,
                None => {
                    proof {
                        assert(s@.take(n as int) =~= s@);
                    }
                    return None;
                },
            };
            proof {
                assert(s@.take(n as int) =~= s@);
            }
            Some(Amount { minor: int_val * 100 })
        }
    }
}

/// The value of a sequence of digits read least significant first.
pub open spec fn lsf_value(s: Seq<u64>) -> int
    decreases s.len(),
{
    if s.len() == 0 {
        0
    } else {
        s[0] + 10 * lsf_value(s.drop_first())
    }
}

proof fn lemma_lsf_push(s: Seq<u64>, d: u64)
    ensures
        lsf_value(s.push(d)) == lsf_value(s) + d * spec_pow10(s.len()),
    decreases s.len(),
{
    if s.len() == 0 {
        assert(s.push(d).drop_first() =~= Seq::<u64>::empty());
        assert(lsf_value(s.push(d)) == d + 10 * lsf_value(s.push(d).drop_first()));
        assert(lsf_value(Seq::<u64>::empty()) == 0);
    } else {
        assert(s.push(d).drop_first() =~= s.drop_first().push(d));
        lemma_lsf_push(s.drop_first(), d);
        let q = spec_pow10((s.len() - 1) as nat);
        assert(spec_pow10(s.len()) == 10 * q);
        assert(d * (10 * q) == 10 * (d * q)) by (nonlinear_arith);
    }
}

/// Reading most-significant-first characters of a least-significant-first
/// digit sequence yields the digits' value.
proof fn lemma_msf_chars_value(c: Seq<char>, s: Seq<u64>)
    requires
        c.len() == s.len(),
        forall|k: int| 0 <= k < s.len() ==> #[trigger] s[k] < 10,
        forall|k: int| 0 <= k < c.len() ==> #[trigger] c[k] as int == 48 + s[c.len() - 1 - k],
    ensures
        all_dec_digits(c),
        dec_digits_value(c) == lsf_value(s),
    decreases s.len(),
{
    if s.len() > 0 {
        let c2 = c.drop_last();
        let s2 = s.drop_first();
        assert(c.last() as int == 48 + s[0]);
        assert forall|k: int| 0 <= k < c2.len() implies #[trigger] c2[k] as int == 48 + s2[c2.len()
            - 1 - k] by {
            assert(c2[k] == c[k]);
            assert(s2[c2.len() - 1 - k] == s[c.len() - 1 - k]);
        }
        lemma_msf_chars_value(c2, s2);
    }
}

/// The one-character string for a digit.
fn digit_str(d: u64) -> (r: &'static str)
    requires
        d < 10,
    ensures
        r@.len() == 1,
        r@[0] as int == 48 + d,
{
    proof {
        reveal_strlit("0");
        reveal_strlit("1");
        reveal_strlit("2");
        reveal_strlit("3");
        reveal_strlit("4");
        reveal_strlit("5");
        reveal_strlit("6");
        reveal_strlit("7");
        reveal_strlit("8");
        reveal_strlit("9");
    }
    match d {
        0 => "0",
        1 => "1",
        2 => "2",
        3 => "3",
        4 => "4",
        5 => "5",
        6 => "6",
        7 => "7",
        8 => "8",
        _ => "9",
    }
}

impl Amount {
    /// Renders the amount as a decimal literal with two fraction digits.
    /// Printing and parsing round-trip: the returned string is an amount
    /// literal whose value is exactly this amount's.
    pub fn to_display(&self) -> (r: String)
        requires
            self.wf(),
        ensures
            amount_of(r@) == Some(self@),
    {
        let m = self.minor;
        let int_part: u64 = m / 100;
        let frac: u64 = m % 100;
        proof {
            reveal_with_fuel(spec_pow10, 9);
        }
        let mut digits: Vec<u64> = Vec::new();
        let mut x: u64 = int_part;
        digits.push(x % 10);
        x = x / 10;
        proof {
            reveal_with_fuel(spec_pow10, 9);
            assert(digits@ =~= Seq::<u64>::empty().push(int_part % 10));
            lemma_lsf_push(Seq::<u64>::empty(), int_part % 10);
            assert(spec_pow10(0) == 1);
            assert(spec_pow10(1) == 10);
            assert(lsf_value(digits@) == int_part % 10);
            assert(x < spec_pow10(7));
        }
        while x > 0
            invariant
                1 <= digits@.len() <= 8,
                forall|k: int| 0 <= k < digits@.len() ==> #[trigger] digits@[k] < 10,
                lsf_value(digits@) + x * spec_pow10(digits@.len()) == int_part,
                x < spec_pow10((8 - digits@.len()) as nat),
                int_part < 100_000_000,
            decreases x,
        {
            let ghost pre = digits@;
            let ghost xpre = x;
            let d = x % 10;
            digits.push(d);
            x = x / 10;
            proof {
                lemma_lsf_push(pre, d);
                let p = spec_pow10(pre.len());
                assert(d * p + (xpre / 10) * (10 * p) == (d + 10 * (xpre / 10)) * p)
                    by (nonlinear_arith);
                assert(spec_pow10(pre.len() + 1) == 10 * p);
                if pre.len() < 8 {
                    assert(spec_pow10((8 - pre.len()) as nat) == 10 * spec_pow10(
                        (8 - pre.len() - 1) as nat,
                    ));
                }
            }
        }
        let n = digits.len();
        let mut out = String::new();
        let mut i: usize = n;
        while i > 0
            invariant
                i <= n,
                n == digits@.len(),
                1 <= n <= 8,
                forall|k: int| 0 <= k < n ==> #[trigger] digits@[k] < 10,
                out@.len() == n - i,
                forall|k: int|
                    0 <= k < out@.len() ==> #[trigger] out@[k] as int == 48 + digits@[n - 1 - k],
            decreases i,
        {
            i = i - 1;
            out.append(digit_str(digits[i]));
        }
        proof {
            lemma_msf_chars_value(out@, digits@);
            lemma_dec_digits_value_bound(out@);
            reveal_strlit(".");
        }
        let ghost prefix = out@;
        out.append(".");
        out.append(digit_str(frac / 10));
        out.append(digit_str(frac % 10));
        proof {
            let w = out@;
            assert(w.len() == prefix.len() + 3);
            assert(w[w.len() - 3] == '.');
            assert(w.take(w.len() - 3) =~= prefix);
            assert(!is_dec_digit(w[w.len() - 3]));
            assert(!all_dec_digits(w));
            assert(!is_dec_digit(w[w.len() - 2]) == false);
            assert(w[w.len() - 2] as int == 48 + frac / 10);
            assert(w[w.len() - 2] != '.');
            assert(dec_digits_value(prefix) * 100 + dec_digit_value(w[w.len() - 2]) * 10
                + dec_digit_value(w.last()) == self.minor);
        }
        out
    }
}

/// The digit at position `i`, or `None` if that character is not a digit.
fn digit_at(s: &str, i: usize) -> (r: Option<u64>)
    requires
        i < s@.len(),
    ensures
        match r {
            Some(d) => is_dec_digit(s@[i as int]) && d == dec_digit_value(s@[i as int]),
            None => !is_dec_digit(s@[i as int]),
        },
{
    let c = s.get_char(i);
    let v = c as u32;
    if 48 <= v && v <= 57 {
        Some((v - 48) as u64)
    } else {
        None
    }
}

/// Reads `s[..end]` as an integer part of one to eight digits.
fn parse_integer_part(s: &str, end: usize) -> (r: Option<u64>)
    requires
        end <= s@.len(),
    ensures
        match r {
            Some(v) => valid_integer_part(s@.take(end as int)) && v == dec_digits_value(
                s@.take(end as int),
            ) && v < 100_000_000,
            None => !valid_integer_part(s@.take(end as int)),
        },
{
    if end < 1 || end > 8 {
        return None;
    }
    let mut acc: u64 = 0;
    let mut i: usize = 0;
    while i < end
        invariant
            i <= end,
            1 <= end <= 8,
            end <= s@.len(),
            all_dec_digits(s@.take(i as int)),
            acc == dec_digits_value(s@.take(i as int)),
            acc < 100_000_000,
        decreases end - i,
    {
        let d = match digit_at(s, i) {
            Some(d) => d,
            None => {
                proof {
                    assert(s@.take(end as int)[i as int] == s@[i as int]);
                }
                return None;
            },
        };
        proof {
            let t = s@.take(i + 1);
            assert(t.drop_last() =~= s@.take(i as int));
            assert(t.last() == s@[i as int]);
            assert forall|j: int| 0 <= j < t.len() implies is_dec_digit(t[j]) by {
                if j < i {
                    assert(is_dec_digit(s@.take(i as int)[j]));
                }
            }
            lemma_dec_digits_value_bound(t);
            lemma_pow10_monotone((i + 1) as nat, 8);
            reveal_with_fuel(spec_pow10, 9);
            assert(spec_pow10(8) == 100_000_000);
        }
        acc = acc * 10 + d;
        i = i + 1;
    }
    Some(acc)
}

} // verus!
