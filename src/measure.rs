//! Exact decimal quantities for weather readings.
//!
//! A reading such as `16.1` is held as the integer `161` together with the
//! number of digits after the point (`1`), so that unit conversions are exact.
use vstd::prelude::*;

verus! {

/// The largest magnitude (exclusive) of a mantissa read from text.
pub const MANTISSA_LIMIT: i64 = 10_000_000_000_000_000;

/// The longest numeral (sign excluded) that `Decimal::parse` accepts.
pub const MAX_NUMERAL_LEN: usize = 16;

/// Ten to the power `n`.
pub open spec fn pow10(n: nat) -> int
    decreases n,
{
    if n == 0 {
        1
    } else {
        10 * pow10((n - 1) as nat)
    }
}

pub open spec fn is_digit(c: char) -> bool {
    '0' <= c && c <= '9'
}

pub open spec fn digit_value(c: char) -> int {
    (c as u32) as int - 48
}

pub open spec fn all_digits(s: Seq<char>) -> bool {
    forall|j: int| 0 <= j < s.len() ==> #[trigger] is_digit(s[j])
}

/// The number that a string of decimal digits denotes.
pub open spec fn digits_value(s: Seq<char>) -> int
    decreases s.len(),
{
    if s.len() == 0 {
        0
    } else {
        digits_value(s.drop_last()) * 10 + digit_value(s.last())
    }
}

/// `body` is `digits '.' digits` with the point at index `k` and digits on both sides.
pub open spec fn point_at(body: Seq<char>, k: int) -> bool {
    &&& 0 < k < body.len() - 1
    &&& body[k] == '.'
    &&& all_digits(body.take(k))
    &&& all_digits(body.skip(k + 1))
}

/// `body` is an unsigned numeral (`"18"`, `"16.1"`) of at most `MAX_NUMERAL_LEN`
/// characters whose digits, read without the point, are `mantissa` and which has
/// `scale` digits after the point.
pub open spec fn unsigned_numeral(body: Seq<char>, mantissa: int, scale: int) -> bool {
    &&& 0 < body.len() <= MAX_NUMERAL_LEN
    &&& {
        ||| all_digits(body) && mantissa == digits_value(body) && scale == 0
        ||| exists|k: int|
            #[trigger] point_at(body, k) && mantissa == digits_value(body.take(k) + body.skip(k + 1))
                && scale == body.len() - k - 1
    }
}

/// The text without its leading minus sign, if it has one.
pub open spec fn unsigned_part(s: Seq<char>) -> Seq<char> {
    if s.len() > 0 && s[0] == '-' {
        s.skip(1)
    } else {
        s
    }
}

pub open spec fn is_negative_text(s: Seq<char>) -> bool {
    s.len() > 0 && s[0] == '-'
}

/// A decimal number `mantissa / 10^scale`.
#[derive(Clone, Copy, Debug, PartialEq, Eq, Structural)]
pub struct Decimal {
    pub mantissa: i64,
    pub scale: u32,
}

impl Decimal {
    /// The text `s` is an optionally signed numeral that denotes `self`, digit for digit.
    pub open spec fn written_as(self, s: Seq<char>) -> bool {
        let m = if is_negative_text(s) {
            -self.mantissa
        } else {
            self.mantissa as int
        };
        unsigned_numeral(unsigned_part(s), m, self.scale as int)
    }

    /// Small enough to be converted between units without overflow.
    pub open spec fn in_range(self) -> bool {
        -MANTISSA_LIMIT < self.mantissa < MANTISSA_LIMIT && self.scale < 1000
    }

    /// The number itself times 3.6: mantissa times 36, one more digit after the point.
    pub open spec fn times_3_6(self) -> Decimal {
        Decimal { mantissa: (self.mantissa * 36) as i64, scale: (self.scale + 1) as u32 }
    }

    pub fn is_in_range(&self) -> (r: bool)
        ensures
            r == self.in_range(),
    {
        -MANTISSA_LIMIT < self.mantissa && self.mantissa < MANTISSA_LIMIT && self.scale < 1000
    }

    /// Zero, with no digits after the point.
    pub fn zero() -> (r: Decimal)
        ensures
            r.mantissa == 0,
            r.scale == 0,
    {
        Decimal { mantissa: 0, scale: 0 }
    }

    /// Converts a speed in metres per second into kilometres per hour (a factor of 3.6, exactly).
    pub fn mps_to_kph(self) -> (r: Decimal)
        requires
            self.in_range(),
        ensures
            r == self.times_3_6(),
            r.mantissa == self.mantissa * 36,
            r.scale == self.scale + 1,
    {
        Decimal { mantissa: self.mantissa * 36, scale: self.scale + 1 }
    }

    /// The number is below the whole number `w`.
    pub open spec fn below_whole(self, w: int) -> bool {
        self.mantissa < w * pow10(self.scale as nat)
    }

    /// Whether the number is below the whole number `w`.
    pub fn is_below_whole(self, w: i64) -> (r: bool)
        requires
            0 <= w <= 100,
        ensures
            r == self.below_whole(w as int),
    {
        if w == 0 {
            return self.mantissa < 0;
        }
        if self.scale > 18 {
            proof {
                lemma_pow10_monotone(19, self.scale as nat);
                lemma_pow10_19();
                let p = pow10(self.scale as nat);
                assert(w * p >= p) by (nonlinear_arith)
                    requires
                        w >= 1,
                        p >= 0,
                ;
            }
            return true;
        }
        let mut p: i128 = 1;
        let mut i: u32 = 0;
        while i < self.scale
            invariant
                i <= self.scale <= 18,
                p == pow10(i as nat),
            decreases self.scale - i,
        {
            proof {
                lemma_pow10_monotone((i + 1) as nat, 18);
                lemma_pow10_18();
                lemma_pow10_bound(i as nat);
                lemma_pow10_positive(i as nat);
            }
            p = p * 10;
            i = i + 1;
        }
        proof {
            lemma_pow10_monotone(self.scale as nat, 18);
            lemma_pow10_18();
            lemma_pow10_positive(i as nat);
            assert(w * p <= 100 * 1_000_000_000_000_000_000) by (nonlinear_arith)
                requires
                    0 <= w <= 100,
                    0 <= p <= 1_000_000_000_000_000_000,
            ;
            lemma_pow10_positive(i as nat);
        }
        (self.mantissa as i128) < (w as i128) * p
    }

    /// Reads an optionally signed decimal numeral such as `"-3"`, `"16.1"` or `"1018"`.
    ///
    /// A numeral is digits, optionally followed by a point and more digits, of at most
    /// `MAX_NUMERAL_LEN` characters after the sign; any other text gives `None`.
    pub fn parse(text: &str) -> (r: Option<Decimal>)
        ensures
            r matches Some(d) ==> d.written_as(text@) && d.in_range(),
            r is None ==> forall|d: Decimal| !(#[trigger] d.written_as(text@)),
    {
        let n = text.unicode_len();
        let negative = n > 0 && text.get_char(0) == '-';
        let start: usize = if negative { 1 } else { 0 };
        let ghost s = text@;
        let ghost body = unsigned_part(s);
        proof {
            assert(body =~= s.subrange(start as int, n as int));
        }
        if n - start == 0 || n - start > MAX_NUMERAL_LEN {
            return None;
        }
        let mut i: usize = start;
        let mut mantissa: i64 = 0;
        let mut point: Option<usize> = None;
        while i < n
            invariant
                s == text@,
                n == s.len(),
                body == s.subrange(start as int, n as int),
                body == unsigned_part(s),
                start <= i <= n,
                n - start <= MAX_NUMERAL_LEN,
                point is None ==> all_digits(s.subrange(start as int, i as int)) && mantissa
                    == digits_value(s.subrange(start as int, i as int)),
                point matches Some(k) ==> {
                    &&& start < k < i
                    &&& s[k as int] == '.'
                    &&& all_digits(s.subrange(start as int, k as int))
                    &&& all_digits(s.subrange(k + 1, i as int))
                    &&& mantissa == digits_value(
                        s.subrange(start as int, k as int) + s.subrange(k + 1, i as int),
                    )
                },
                0 <= mantissa < pow10((i - start) as nat),
            decreases n - i,
        {
            let c = text.get_char(i);
            if '0' <= c && c <= '9' {
                proof {
                    lemma_pow10_bound((i - start) as nat);
                    lemma_pow10_monotone((i - start + 1) as nat, 16);
                    lemma_pow10_16();
                    assert((c as u32) >= 48 && (c as u32) <= 57);
                }
                mantissa = mantissa * 10 + (c as u32 - 48u32) as i64;
                proof {
                    match point {
                        None => {
                            let p = s.subrange(start as int, i as int);
                            assert(s.subrange(start as int, i + 1) =~= p.push(c));
                            assert(p.push(c).drop_last() =~= p);
                        },
                        Some(k) => {
                            let a = s.subrange(start as int, k as int);
                            let p = s.subrange(k + 1, i as int);
                            assert(s.subrange(k + 1, i + 1) =~= p.push(c));
                            assert(a + p.push(c) =~= (a + p).push(c));
                            assert((a + p).push(c).drop_last() =~= a + p);
                        },
                    }
                }
            } else if c == '.' && point.is_none() && i > start {
                point = Some(i);
                proof {
                    assert(s.subrange(i + 1, i + 1) =~= Seq::<char>::empty());
                    assert(s.subrange(start as int, i as int) + s.subrange(i + 1, i + 1)
                        =~= s.subrange(start as int, i as int));
                    lemma_pow10_monotone((i - start) as nat, (i + 1 - start) as nat);
                }
            } else {
                proof {
                    assert(body[i - start] == s[i as int]);
                    if let Some(k) = point {
                        assert(body[k - start] == s[k as int]);
                    }
                    lemma_rejected_char(body, (i - start) as int, point, start as int);
                    assert forall|d: Decimal| !(#[trigger] d.written_as(text@)) by {
                        let m = if is_negative_text(s) {
                            -d.mantissa
                        } else {
                            d.mantissa as int
                        };
                        assert(!unsigned_numeral(body, m, d.scale as int));
                    }
                }
                return None;
            }
            i = i + 1;
        }
        match point {
            None => {
                proof {
                    assert(body.len() > 0);
                    lemma_pow10_monotone((n - start) as nat, 16);
                    lemma_pow10_16();
                }
                let d = Decimal { mantissa: if negative { -mantissa } else { mantissa }, scale: 0 };
                proof {
                    assert(unsigned_numeral(body, mantissa as int, 0));
                }
                Some(d)
            },
            Some(k) => {
                if k + 1 == n {
                    proof {
                        assert(body[k - start] == s[k as int]);
                        lemma_trailing_point(body, k - start);
                        assert forall|d: Decimal| !(#[trigger] d.written_as(text@)) by {
                            let m = if is_negative_text(s) {
                                -d.mantissa
                            } else {
                                d.mantissa as int
                            };
                            assert(!unsigned_numeral(body, m, d.scale as int));
                        }
                    }
                    return None;
                }
                proof {
                    lemma_pow10_monotone((n - start) as nat, 16);
                    lemma_pow10_16();
                    let kk = k - start;
                    assert(body.take(kk) =~= s.subrange(start as int, k as int));
                    assert(body.skip(kk + 1) =~= s.subrange(k + 1, n as int));
                    assert(point_at(body, kk));
                }
                let d = Decimal {
                    mantissa: if negative { -mantissa } else { mantissa },
                    scale: (n - k - 1) as u32,
                };
                proof {
                    let kk = k - start;
                    assert(unsigned_numeral(body, mantissa as int, d.scale as int));
                }
                Some(d)
            },
        }
    }
}

proof fn lemma_pow10_positive(n: nat)
    ensures
        pow10(n) >= 1,
    decreases n,
{
    if n > 0 {
        lemma_pow10_positive((n - 1) as nat);
    }
}

proof fn lemma_pow10_bound(n: nat)
    ensures
        pow10(n + 1) == 10 * pow10(n),
{
}

proof fn lemma_pow10_monotone(a: nat, b: nat)
    requires
        a <= b,
    ensures
        pow10(a) <= pow10(b),
    decreases b - a,
{
    if a < b {
        lemma_pow10_monotone(a, (b - 1) as nat);
        lemma_pow10_positive((b - 1) as nat);
    }
}

proof fn lemma_pow10_18()
    ensures
        pow10(18) == 1_000_000_000_000_000_000,
{
    reveal_with_fuel(pow10, 19);
}

proof fn lemma_pow10_19()
    ensures
        pow10(19) == 10_000_000_000_000_000_000,
{
    reveal_with_fuel(pow10, 20);
}

proof fn lemma_pow10_16()
    ensures
        pow10(16) == MANTISSA_LIMIT,
{
    reveal_with_fuel(pow10, 17);
}

/// A character at index `i` of `body` that is neither a digit nor an acceptable point
/// rules out every reading of `body` as a numeral.
proof fn lemma_rejected_char(body: Seq<char>, i: int, point: Option<usize>, start: int)
    requires
        0 <= i < body.len(),
        !is_digit(body[i]),
        body[i] != '.' || i == 0 || point is Some,
        point matches Some(k) ==> 0 < k - start < i && body[k - start] == '.',
    ensures
        forall|m: int, sc: int| !unsigned_numeral(body, m, sc),
{
    assert(!all_digits(body));
    assert forall|k: int| !#[trigger] point_at(body, k) by {
        if point_at(body, k) {
            if i < k {
                assert(body.take(k)[i] == body[i]);
            } else if i > k {
                assert(body.skip(k + 1)[i - k - 1] == body[i]);
            } else {
                if i == 0 {
                } else {
                    let j = point->0 - start;
                    assert(body.take(k)[j] == body[j]);
                }
            }
        }
    }
}

/// A point as the last character rules out every reading of `body` as a numeral.
proof fn lemma_trailing_point(body: Seq<char>, k: int)
    requires
        0 <= k == body.len() - 1,
        body[k] == '.',
    ensures
        forall|m: int, sc: int| !unsigned_numeral(body, m, sc),
{
    assert(!is_digit(body[k]));
    assert(!all_digits(body));
    assert forall|j: int| !#[trigger] point_at(body, j) by {
        if point_at(body, j) && j != k {
            assert(body.skip(j + 1)[k - j - 1] == body[k]);
        }
    }
}

} // verus!
