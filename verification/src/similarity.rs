//! Exact similarity scores.
//!
//! A score is kept as a fraction of two integers, so that every backend's
//! arithmetic is exact and scores can be ordered without rounding.

use vstd::prelude::*;
use crate::error::{Error, ErrorView};
use crate::text::{before, lemma_position, lemma_position_is, position, to_chars};

verus! {

/// A score `numerator / denominator`, usually between 0 and 100.
///
/// The value -1 means that the backend gives no score. Nothing keeps a score
/// from being negative: test for the marker with [`Similarity::is_unknown`].
#[derive(Debug, Clone, Copy, PartialEq, Eq, Structural)]
pub struct Similarity {
    pub numerator: i64,
    pub denominator: u128,
}

/// `c` is one of the ten decimal digits.
pub open spec fn is_digit(c: char) -> bool {
    48 <= c as u32 <= 57
}

/// What the digit `c` counts.
pub open spec fn digit_value(c: char) -> int {
    c as u32 - 48
}

/// Every character of `s` is a decimal digit.
pub open spec fn all_digits(s: Seq<char>) -> bool {
    forall|i: int| 0 <= i < s.len() ==> is_digit(#[trigger] s[i])
}

/// The number that the digits `s` write in base ten; 0 for no digits.
pub open spec fn digits_value(s: Seq<char>) -> int
    decreases s.len(),
{
    if s.len() == 0 {
        0
    } else {
        digits_value(s.drop_last()) * 10 + digit_value(s.last())
    }
}

/// Ten to the power `n`.
pub open spec fn pow10(n: nat) -> int
    decreases n,
{
    if n == 0 {
        1
    } else {
        10 * pow10((n - 1) as nat)
    }
}

/// `s` begins with a plus or a minus.
pub open spec fn has_sign(s: Seq<char>) -> bool {
    s.len() > 0 && (s[0] == '+' || s[0] == '-')
}

/// `s` without its sign.
pub open spec fn unsigned_part(s: Seq<char>) -> Seq<char> {
    if has_sign(s) {
        s.drop_first()
    } else {
        s
    }
}

/// What stands before the decimal point.
pub open spec fn whole_part(s: Seq<char>) -> Seq<char> {
    before(unsigned_part(s), '.')
}

/// What stands after the decimal point; nothing where there is no point.
pub open spec fn fraction_part(s: Seq<char>) -> Seq<char> {
    let body = unsigned_part(s);
    let dot = position(body, '.');
    if dot < body.len() {
        body.skip(dot + 1)
    } else {
        Seq::empty()
    }
}

/// `s` is a decimal numeral: an optional sign, digits, and optionally a point
/// with digits behind it, with at least one digit in all.
pub open spec fn is_decimal(s: Seq<char>) -> bool {
    &&& all_digits(whole_part(s))
    &&& all_digits(fraction_part(s))
    &&& whole_part(s).len() + fraction_part(s).len() > 0
}

/// The numeral's digits read as one number, without the sign.
pub open spec fn decimal_magnitude(s: Seq<char>) -> int {
    digits_value(whole_part(s) + fraction_part(s))
}

/// The power of ten that the digits behind the point call for.
pub open spec fn decimal_scale(s: Seq<char>) -> int {
    pow10(fraction_part(s).len())
}

/// The score that the numeral `s` writes, where it is one and its two
/// integers fit their fields.
pub open spec fn parsed(s: Seq<char>) -> Option<Similarity> {
    if is_decimal(s) && decimal_magnitude(s) <= i64::MAX && decimal_scale(s) <= u128::MAX {
        let magnitude = decimal_magnitude(s);
        Some(
            Similarity {
                numerator: (if s[0] == '-' {
                    -magnitude
                } else {
                    magnitude
                }) as i64,
                denominator: decimal_scale(s) as u128,
            },
        )
    } else {
        None
    }
}

/// The quotient of `a` by a positive `b`, rounded towards zero.
pub open spec fn truncated_quotient(a: int, b: int) -> int {
    if a >= 0 {
        a / b
    } else {
        -((-a) / b)
    }
}

/// A hundred times the score, rounded towards zero and kept within `i32`.
///
/// A score over zero is as large or as small as its sign says, and zero over
/// zero counts as 0.
pub open spec fn percent_key_of(s: Similarity) -> int {
    if s.denominator == 0 {
        if s.numerator > 0 {
            i32::MAX as int
        } else if s.numerator < 0 {
            i32::MIN as int
        } else {
            0
        }
    } else {
        let q = truncated_quotient(100 * s.numerator, s.denominator as int);
        if q > i32::MAX {
            i32::MAX as int
        } else if q < i32::MIN {
            i32::MIN as int
        } else {
            q
        }
    }
}

/// The marker for "no score": the value -1.
pub open spec fn no_score() -> Similarity {
    Similarity { numerator: -1i64, denominator: 1 }
}

/// The score that stands for a match at `distance`.
pub open spec fn distance_score(distance: u64) -> Similarity {
    Similarity { numerator: 100, denominator: ((distance + 1) * 100) as u128 }
}

/// The score `s` divided by a hundred, where the larger denominator fits.
pub open spec fn hundredth_of(s: Similarity) -> Option<Similarity> {
    if s.denominator * 100 <= u128::MAX {
        Some(Similarity { numerator: s.numerator, denominator: (s.denominator * 100) as u128 })
    } else {
        None
    }
}

/// The key of the score for a match at `distance` is a hundred divided by
/// one more than the distance, rounded down: the closer the match, the
/// larger the key.
pub proof fn lemma_distance_key(distance: u64)
    ensures
        percent_key_of(distance_score(distance)) == 100int / (distance + 1),
{
    let steps: int = distance + 1;
    vstd::arithmetic::div_mod::lemma_div_denominator(10000, 100, steps);
    assert(100 * steps == steps * 100) by (nonlinear_arith);
    assert(0 <= 100int / steps <= 100) by (nonlinear_arith)
        requires
            steps >= 1,
    ;
}

proof fn lemma_digits_push(s: Seq<char>, c: char)
    ensures
        digits_value(s.push(c)) == digits_value(s) * 10 + digit_value(c),
{
    assert(s.push(c).drop_last() =~= s);
}

fn digit_of(c: char) -> (d: Option<u8>)
    ensures
        d is Some == is_digit(c),
        d matches Some(v) ==> v == digit_value(c),
{
    let code = c as u32;
    if 48 <= code && code <= 57 {
        Some((code - 48) as u8)
    } else {
        None
    }
}

/// Takes one more digit into a number that is kept within `i64`: `exact`
/// tells whether `held` is still the true value, which else is too large.
fn take_digit(held: u64, exact: bool, digit: u8, Ghost(value): Ghost<int>) -> (next: (u64, bool))
    requires
        digit <= 9,
        0 <= value,
        exact ==> held == value && held <= i64::MAX,
        !exact ==> value > i64::MAX,
    ensures
        next.1 ==> next.0 == value * 10 + digit && next.0 <= i64::MAX,
        !next.1 ==> value * 10 + digit > i64::MAX,
{
    if exact && held <= (i64::MAX as u64 - digit as u64) / 10 {
        (held * 10 + digit as u64, true)
    } else {
        (held, false)
    }
}

impl Similarity {
    /// The marker for "no score": the value -1.
    pub fn unknown() -> (s: Similarity)
        ensures
            s == no_score(),
    {
        Similarity { numerator: -1, denominator: 1 }
    }

    /// Whether this score is the marker for "no score", the value -1.
    pub open spec fn spec_is_unknown(self) -> bool {
        self.numerator < 0 && self.denominator == -self.numerator
    }

    /// Whether this score is the marker for "no score", the value -1.
    #[verifier::when_used_as_spec(spec_is_unknown)]
    pub fn is_unknown(self) -> (unknown: bool)
        ensures
            unknown == self.spec_is_unknown(),
    {
        self.numerator < 0 && self.denominator == (-(self.numerator as i128)) as u128
    }

    /// The score of a match at `distance`: `100 / ((distance + 1) * 100)`.
    pub fn from_distance(distance: u64) -> (s: Similarity)
        ensures
            s == distance_score(distance),
    {
        Similarity { numerator: 100, denominator: (distance as u128 + 1) * 100 }
    }

    /// This score divided by a hundred, or `None` where the denominator
    /// would not fit.
    pub fn hundredth(self) -> (s: Option<Similarity>)
        ensures
            s == hundredth_of(self),
    {
        match self.denominator.checked_mul(100) {
            Some(denominator) => Some(Similarity { numerator: self.numerator, denominator }),
            None => None,
        }
    }

    /// A hundred times the score as a whole number, the key by which results
    /// are ranked.
    pub fn percent_key(self) -> (key: i32)
        ensures
            key == percent_key_of(self),
    {
        if self.denominator == 0 {
            if self.numerator > 0 {
                i32::MAX
            } else if self.numerator < 0 {
                i32::MIN
            } else {
                0
            }
        } else if self.denominator > i128::MAX as u128 {
            proof {
                let a = 100 * self.numerator as int;
                let b = self.denominator as int;
                if a >= 0 {
                    assert(a / b == 0) by (nonlinear_arith)
                        requires
                            0 <= a < b,
                    ;
                } else {
                    assert((-a) / b == 0) by (nonlinear_arith)
                        requires
                            0 <= -a < b,
                    ;
                }
            }
            0
        } else {
            let q: i128 = (100 * self.numerator as i128) / (self.denominator as i128);
            if q > i32::MAX as i128 {
                i32::MAX
            } else if q < i32::MIN as i128 {
                i32::MIN
            } else {
                q as i32
            }
        }
    }

    /// Reads a decimal numeral such as `94.21`, `-1`, `+.5` or `7.`.
    ///
    /// Anything else is refused with [`Error::UnableToConvertToFloat`]: text
    /// around the numeral, an exponent, a word such as `inf`, and a numeral
    /// with more digits than the score's two integers hold.
    pub fn parse(text: &str) -> (r: Result<Similarity, Error>)
        ensures
            match parsed(text@) {
                Some(s) => r == Ok::<Similarity, Error>(s),
                None => r matches Err(e) && e@ == ErrorView::UnableToConvertToFloat,
            },
    {
        let chars = to_chars(text);
        let n = chars.len();
        let mut start: usize = 0;
        let mut negative = false;
        if n > 0 && (chars[0] == '+' || chars[0] == '-') {
            negative = chars[0] == '-';
            start = 1;
        }
        let ghost body = unsigned_part(text@);
        assert(body =~= chars@.skip(start as int));

        let mut i: usize = start;
        let mut held: u64 = 0;
        let mut exact = true;
        while i < n && digit_of(chars[i]).is_some()
            invariant
                start <= i <= n,
                n == chars.len(),
                all_digits(chars@.subrange(start as int, i as int)),
                exact ==> held == digits_value(chars@.subrange(start as int, i as int)) && held
                    <= i64::MAX,
                !exact ==> digits_value(chars@.subrange(start as int, i as int)) > i64::MAX,
                digits_value(chars@.subrange(start as int, i as int)) >= 0,
            decreases n - i,
        {
            let ghost seen = chars@.subrange(start as int, i as int);
            let digit = digit_of(chars[i]).unwrap();
            let next = take_digit(held, exact, digit, Ghost(digits_value(seen)));
            proof {
                lemma_digits_push(seen, chars@[i as int]);
                assert(chars@.subrange(start as int, i + 1) =~= seen.push(chars@[i as int]));
            }
            held = next.0;
            exact = next.1;
            i += 1;
        }
        let ghost whole = chars@.subrange(start as int, i as int);
        let whole_len: usize = i - start;
        proof {
            assert(whole =~= body.take(whole_len as int));
            assert forall|k: int| 0 <= k < whole_len implies body[k] != '.' by {
                assert(is_digit(whole[k]));
            }
        }
        if i < n && chars[i] != '.' {
            proof {
                lemma_position(body, '.');
                let p = position(body, '.');
                if p <= whole_len {
                    if p < whole_len {
                        assert(body[p] == '.');
                    }
                } else {
                    assert(whole_part(text@)[whole_len as int] == body[whole_len as int]);
                    assert(!is_digit(whole_part(text@)[whole_len as int]));
                }
            }
            return Err(Error::UnableToConvertToFloat);
        }
        proof {
            lemma_position_is(body, '.', whole_len as int);
            assert(whole_part(text@) =~= whole);
        }
        let mut scale: u128 = 1;
        let mut scale_fits = true;
        let mut fraction_len: usize = 0;
        if i < n {
            let from: usize = i + 1;
            assert(fraction_part(text@) =~= chars@.skip(from as int));
            let mut j: usize = from;
            while j < n
                invariant
                    start <= i < from <= j <= n,
                    n == chars.len(),
                    from == i + 1,
                    fraction_len == j - from,
                    whole == chars@.subrange(start as int, i as int),
                    all_digits(chars@.subrange(from as int, j as int)),
                    exact ==> held == digits_value(whole + chars@.subrange(from as int, j as int))
                        && held <= i64::MAX,
                    !exact ==> digits_value(whole + chars@.subrange(from as int, j as int))
                        > i64::MAX,
                    digits_value(whole + chars@.subrange(from as int, j as int)) >= 0,
                    scale_fits ==> scale == pow10((j - from) as nat),
                    !scale_fits ==> pow10((j - from) as nat) > u128::MAX,
                    pow10((j - from) as nat) > 0,
                    fraction_part(text@) == chars@.skip(from as int),
                decreases n - j,
            {
                let ghost seen = chars@.subrange(from as int, j as int);
                match digit_of(chars[j]) {
                    None => {
                        proof {
                            assert(fraction_part(text@)[j - from] == chars@[j as int]);
                        }
                        return Err(Error::UnableToConvertToFloat);
                    },
                    Some(digit) => {
                        let ghost value = digits_value(whole + seen);
                        let next = take_digit(held, exact, digit, Ghost(value));
                        proof {
                            lemma_digits_push(whole + seen, chars@[j as int]);
                            assert(whole + chars@.subrange(from as int, j + 1) =~= (whole
                                + seen).push(chars@[j as int]));
                            assert(chars@.subrange(from as int, j + 1) =~= seen.push(
                                chars@[j as int],
                            ));
                        }
                        held = next.0;
                        exact = next.1;
                        if scale_fits {
                            match scale.checked_mul(10) {
                                Some(larger) => {
                                    scale = larger;
                                },
                                None => {
                                    scale_fits = false;
                                },
                            }
                        }
                        fraction_len += 1;
                        j += 1;
                    },
                }
            }
            assert(chars@.subrange(from as int, n as int) =~= chars@.skip(from as int));
        } else {
            assert(fraction_part(text@) =~= Seq::<char>::empty());
            assert(whole + Seq::<char>::empty() =~= whole);
        }
        if whole_len == 0 && fraction_len == 0 {
            return Err(Error::UnableToConvertToFloat);
        }
        if !exact || !scale_fits {
            return Err(Error::UnableToConvertToFloat);
        }
        let magnitude = held as i64;
        Ok(
            Similarity {
                numerator: if negative {
                    -magnitude
                } else {
                    magnitude
                },
                denominator: scale,
            },
        )
    }
}

} // verus!
