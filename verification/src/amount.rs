//! Exact decimal amounts.
//!
//! A statement gives money as a decimal numeral such as `3.00` or `12.5`.
//! An [`Amount`] keeps the numeral digit by digit, so that no value is ever
//! rounded: scaling to the ledger's unit and writing the amount back out are
//! both exact.

use vstd::prelude::*;
use crate::text::{chars_of, digit_char, digit_to_char, pow10, push_char};

verus! {

/// Whether `c` is one of the ten decimal digits.
pub open spec fn is_digit(c: char) -> bool {
    '0' <= c && c <= '9'
}

/// The value of the digit that `c` writes.
pub open spec fn digit_value(c: char) -> u8
    recommends
        is_digit(c),
{
    (c as int - 48) as u8
}

/// Whether every character of `s` is a decimal digit.
pub open spec fn all_digits(s: Seq<char>) -> bool {
    forall|i: int| 0 <= i < s.len() ==> is_digit(#[trigger] s[i])
}

/// The values of a string of digits, in order.
pub open spec fn digit_values(s: Seq<char>) -> Seq<u8> {
    s.map_values(|c: char| digit_value(c))
}

/// The characters that write a sequence of digit values.
pub open spec fn digit_chars(d: Seq<u8>) -> Seq<char> {
    d.map_values(|v: u8| digit_char(v as nat))
}

/// `d` without the zeros at its front.
pub open spec fn strip_leading_zeros(d: Seq<u8>) -> Seq<u8>
    decreases d.len(),
{
    if d.len() > 0 && d[0] == 0 {
        strip_leading_zeros(d.skip(1))
    } else {
        d
    }
}

/// `d` without the zeros at its end.
pub open spec fn strip_trailing_zeros(d: Seq<u8>) -> Seq<u8>
    decreases d.len(),
{
    if d.len() > 0 && d.last() == 0 {
        strip_trailing_zeros(d.drop_last())
    } else {
        d
    }
}

/// The number that a sequence of digits writes in base ten, most significant
/// digit first.
pub open spec fn digits_value(d: Seq<u8>) -> nat
    decreases d.len(),
{
    if d.len() == 0 {
        0
    } else {
        digits_value(d.drop_last()) * 10 + d.last() as nat
    }
}

/// A signed decimal numeral: the digits before and after the decimal point.
///
/// It denotes `mantissa() / 10^scale()`, negated when `negative` is set. The
/// sign is kept apart from the digits, so a negative zero stays negative.
pub struct Decimal {
    pub negative: bool,
    pub whole: Seq<u8>,
    pub fraction: Seq<u8>,
}

impl Decimal {
    /// Every digit is below ten, the whole part does not start with a zero and
    /// the fraction does not end with one.
    pub open spec fn is_canonical(self) -> bool {
        &&& forall|i: int| 0 <= i < self.whole.len() ==> #[trigger] self.whole[i] < 10
        &&& forall|i: int| 0 <= i < self.fraction.len() ==> #[trigger] self.fraction[i] < 10
        &&& self.whole.len() > 0 ==> self.whole[0] != 0
        &&& self.fraction.len() > 0 ==> self.fraction.last() != 0
    }

    /// All the digits read as one natural number.
    pub open spec fn mantissa(self) -> nat {
        digits_value(self.whole + self.fraction)
    }

    /// The number of digits after the decimal point.
    pub open spec fn scale(self) -> nat {
        self.fraction.len()
    }

    /// The magnitude times one thousand, rounded down.
    pub open spec fn magnitude_thousandths(self) -> nat {
        (self.mantissa() * 1000) / pow10(self.scale())
    }

    /// The value times one thousand, rounded toward zero.
    pub open spec fn thousandths(self) -> int {
        if self.negative {
            -(self.magnitude_thousandths() as int)
        } else {
            self.magnitude_thousandths() as int
        }
    }

    /// Whether the value is zero, of either sign.
    pub open spec fn is_zero(self) -> bool {
        self.mantissa() == 0
    }

    /// The sign as it is written: a minus sign or nothing.
    pub open spec fn sign_text(self) -> Seq<char> {
        if self.negative {
            seq!['-']
        } else {
            Seq::empty()
        }
    }

    /// The whole part as it is written: its digits, or a single `0` when
    /// it has none.
    pub open spec fn whole_text(self) -> Seq<char> {
        if self.whole.len() == 0 {
            seq!['0']
        } else {
            digit_chars(self.whole)
        }
    }

    /// The fraction as it is written: the decimal point and its digits, or
    /// nothing when it has none.
    pub open spec fn fraction_text(self) -> Seq<char> {
        if self.fraction.len() == 0 {
            Seq::empty()
        } else {
            seq!['.'] + digit_chars(self.fraction)
        }
    }

    /// The numeral in its shortest form: sign, whole part and fraction.
    pub open spec fn text(self) -> Seq<char> {
        self.sign_text() + self.whole_text() + self.fraction_text()
    }
}

/// The digit of a fraction at place `i` after the point; places past its end
/// hold zeros.
pub open spec fn fraction_digit(fraction: Seq<u8>, i: int) -> nat {
    if 0 <= i < fraction.len() {
        fraction[i] as nat
    } else {
        0
    }
}

/// The first three places of a fraction, read as a number of thousandths.
pub open spec fn leading_thousandths(fraction: Seq<u8>) -> nat {
    fraction_digit(fraction, 0) * 100 + fraction_digit(fraction, 1) * 10 + fraction_digit(
        fraction,
        2,
    )
}

/// `v` brought into the range of a 64-bit signed integer.
pub open spec fn clamp_i64(v: int) -> int {
    if v < i64::MIN {
        i64::MIN as int
    } else if v > i64::MAX {
        i64::MAX as int
    } else {
        v
    }
}

/// What is left of `text` after an optional leading `+` or `-`.
pub open spec fn unsigned_part(text: Seq<char>) -> Seq<char> {
    if text.len() > 0 && (text[0] == '-' || text[0] == '+') {
        text.skip(1)
    } else {
        text
    }
}

/// The part of `body` before its first decimal point, or all of it.
pub open spec fn whole_part(body: Seq<char>) -> Seq<char> {
    match body.index_of_first('.') {
        Some(i) => body.take(i),
        None => body,
    }
}

/// The part of `body` after its first decimal point, if it has one.
pub open spec fn fraction_part(body: Seq<char>) -> Seq<char> {
    match body.index_of_first('.') {
        Some(i) => body.skip(i + 1),
        None => Seq::empty(),
    }
}

/// The amount that `text` writes, if it is a decimal numeral: an optional
/// sign, then digits with at most one decimal point among them and at least
/// one digit in all. Exponents and the names of special values are no
/// numerals.
pub open spec fn parse_decimal(text: Seq<char>) -> Option<Decimal> {
    let body = unsigned_part(text);
    let whole = whole_part(body);
    let fraction = fraction_part(body);
    if all_digits(whole) && all_digits(fraction) && whole.len() + fraction.len() > 0 {
        Some(
            Decimal {
                negative: text.len() > 0 && text[0] == '-',
                whole: strip_leading_zeros(digit_values(whole)),
                fraction: strip_trailing_zeros(digit_values(fraction)),
            },
        )
    } else {
        None
    }
}

/// An exact decimal amount of money, in canonical form.
#[derive(Debug, PartialEq, Eq)]
pub struct Amount {
    negative: bool,
    whole: Vec<u8>,
    fraction: Vec<u8>,
}

impl Amount {
    #[verifier::type_invariant]
    spec fn well_formed(&self) -> bool {
        self@.is_canonical()
    }
}

impl View for Amount {
    type V = Decimal;

    closed spec fn view(&self) -> Decimal {
        Decimal { negative: self.negative, whole: self.whole@, fraction: self.fraction@ }
    }
}

impl Clone for Amount {
    fn clone(&self) -> (copy: Self)
        ensures
            copy@ == self@,
    {
        proof {
            use_type_invariant(self);
        }
        Amount {
            negative: self.negative,
            whole: self.whole.clone(),
            fraction: self.fraction.clone(),
        }
    }
}

fn is_digit_char(c: char) -> (b: bool)
    ensures
        b == is_digit(c),
{
    '0' <= c && c <= '9'
}

fn digit_of(c: char) -> (d: u8)
    requires
        is_digit(c),
    ensures
        d == digit_value(c),
        d < 10,
{
    ((c as u32) - 48) as u8
}

/// Reads digits of `chars` from `from` on, up to the first character that
/// is no digit, and returns their values and where it stopped.
fn read_digits(chars: &Vec<char>, from: usize) -> (result: (Vec<u8>, usize))
    requires
        from <= chars.len(),
    ensures
        from <= result.1 <= chars.len(),
        all_digits(chars@.subrange(from as int, result.1 as int)),
        result.0@ == digit_values(chars@.subrange(from as int, result.1 as int)),
        result.1 < chars.len() ==> !is_digit(chars@[result.1 as int]),
        forall|i: int| 0 <= i < result.0.len() ==> #[trigger] result.0[i] < 10,
{
    let mut digits: Vec<u8> = Vec::new();
    let mut i: usize = from;
    while i < chars.len() && is_digit_char(chars[i])
        invariant
            from <= i <= chars.len(),
            all_digits(chars@.subrange(from as int, i as int)),
            digits@ == digit_values(chars@.subrange(from as int, i as int)),
            forall|k: int| 0 <= k < digits.len() ==> #[trigger] digits[k] < 10,
        decreases chars.len() - i,
    {
        digits.push(digit_of(chars[i]));
        proof {
            let before = chars@.subrange(from as int, i as int);
            let after = chars@.subrange(from as int, i + 1);
            assert(after == before.push(chars@[i as int]));
            assert(digit_values(after) == digit_values(before).push(digit_value(chars@[i as int])));
        }
        i += 1;
    }
    (digits, i)
}

/// Zeros at the front of a sequence do not change what is left after
/// stripping them.
proof fn lemma_strip_leading_skip(d: Seq<u8>, k: int)
    requires
        0 <= k <= d.len(),
        forall|j: int| 0 <= j < k ==> d[j] == 0,
    ensures
        strip_leading_zeros(d) == strip_leading_zeros(d.skip(k)),
    decreases k,
{
    if k == 0 {
        assert(d.skip(0) =~= d);
    } else {
        assert(d[0] == 0);
        lemma_strip_leading_skip(d.skip(1), k - 1);
        assert(d.skip(1).skip(k - 1) =~= d.skip(k));
    }
}

/// Drops the zeros at the front of `digits`.
fn drop_leading_zeros(digits: Vec<u8>) -> (out: Vec<u8>)
    requires
        forall|i: int| 0 <= i < digits.len() ==> #[trigger] digits[i] < 10,
    ensures
        out@ == strip_leading_zeros(digits@),
        forall|i: int| 0 <= i < out.len() ==> #[trigger] out[i] < 10,
        out.len() > 0 ==> out[0] != 0,
{
    let mut first: usize = 0;
    while first < digits.len() && digits[first] == 0
        invariant
            first <= digits.len(),
            forall|j: int| 0 <= j < first ==> digits[j] == 0,
        decreases digits.len() - first,
    {
        first += 1;
    }
    let mut out: Vec<u8> = Vec::new();
    let mut j: usize = first;
    while j < digits.len()
        invariant
            first <= j <= digits.len(),
            out@ =~= digits@.subrange(first as int, j as int),
        decreases digits.len() - j,
    {
        out.push(digits[j]);
        j += 1;
    }
    proof {
        lemma_strip_leading_skip(digits@, first as int);
        assert(out@ =~= digits@.skip(first as int));
    }
    out
}

/// Drops the zeros at the end of `digits`.
fn drop_trailing_zeros(digits: Vec<u8>) -> (out: Vec<u8>)
    requires
        forall|i: int| 0 <= i < digits.len() ==> #[trigger] digits[i] < 10,
    ensures
        out@ == strip_trailing_zeros(digits@),
        forall|i: int| 0 <= i < out.len() ==> #[trigger] out[i] < 10,
        out.len() > 0 ==> out@.last() != 0,
{
    let mut out = digits;
    while out.len() > 0 && out[out.len() - 1] == 0
        invariant
            strip_trailing_zeros(out@) == strip_trailing_zeros(digits@),
            forall|i: int| 0 <= i < out.len() ==> #[trigger] out[i] < 10,
        decreases out.len(),
    {
        out.pop();
    }
    out
}

/// Appends the characters of a sequence of digits to `out`.
fn push_digits(out: &mut String, digits: &Vec<u8>)
    requires
        forall|i: int| 0 <= i < digits.len() ==> #[trigger] digits[i] < 10,
    ensures
        final(out)@ == old(out)@ + digit_chars(digits@),
{
    let mut i: usize = 0;
    while i < digits.len()
        invariant
            i <= digits.len(),
            forall|k: int| 0 <= k < digits.len() ==> #[trigger] digits[k] < 10,
            out@ =~= old(out)@ + digit_chars(digits@.take(i as int)),
        decreases digits.len() - i,
    {
        push_char(out, digit_to_char(digits[i]));
        proof {
            assert(digits@.take(i + 1) =~= digits@.take(i as int).push(digits@[i as int]));
        }
        i += 1;
    }
    proof {
        assert(digits@.take(digits.len() as int) =~= digits@);
    }
}

/// From this many units on, a whole part scaled by one thousand lies beyond
/// every 64-bit integer.
const WHOLE_LIMIT: u64 = 10_000_000_000_000_000;

impl Amount {
    /// Reads a decimal numeral. Returns `None` when `text` is none.
    pub fn parse(text: &str) -> (result: Option<Amount>)
        ensures
            match result {
                Some(amount) => parse_decimal(text@) == Some(amount@) && amount@.is_canonical(),
                None => parse_decimal(text@) is None,
            },
    {
        proof {
            lemma_parse_decimal_canonical(text@);
        }
        let chars = chars_of(text);
        let n = chars.len();
        let signed = n > 0 && (chars[0] == '-' || chars[0] == '+');
        let negative = n > 0 && chars[0] == '-';
        let start: usize = if signed { 1 } else { 0 };
        let ghost body = unsigned_part(text@);
        assert(body == chars@.subrange(start as int, n as int));
        let (whole_digits, dot) = read_digits(&chars, start);
        proof {
            body.index_of_first_ensures('.');
        }
        if dot == n {
            assert(chars@.subrange(start as int, dot as int) == body);
            assert(body.index_of_first('.') is None) by {
                if body.contains('.') {
                    let k = choose|k: int| 0 <= k < body.len() && body[k] == '.';
                    assert(is_digit(body[k]));
                }
            }
            if whole_digits.len() == 0 {
                return None;
            }
            let whole = drop_leading_zeros(whole_digits);
            let fraction: Vec<u8> = Vec::new();
            assert(digit_values(fraction_part(body)) =~= fraction@);
            return Some(Amount { negative, whole, fraction });
        }
        if chars[dot] != '.' {
            assert(!all_digits(whole_part(body))) by {
                let at = dot - start;
                assert(body[at] == chars@[dot as int]);
                assert(forall|k: int| 0 <= k < at ==> is_digit(#[trigger] body[k])) by {
                    assert forall|k: int| 0 <= k < at implies is_digit(#[trigger] body[k]) by {
                        assert(body[k] == chars@.subrange(start as int, dot as int)[k]);
                    }
                }
                match body.index_of_first('.') {
                    Some(p) => {
                        if p < at {
                            assert(is_digit(body[p]));
                        }
                        assert(p > at);
                        assert(whole_part(body)[at] == body[at]);
                    },
                    None => {},
                }
            }
            return None;
        }
        let ghost at = dot - start;
        assert(body.index_of_first('.') == Some(at)) by {
            assert(body[at] == '.');
            assert forall|k: int| 0 <= k < at implies body[k] != '.' by {
                assert(body[k] == chars@.subrange(start as int, dot as int)[k]);
                assert(is_digit(body[k]));
            }
        }
        assert(whole_part(body) == chars@.subrange(start as int, dot as int));
        let (fraction_digits, end) = read_digits(&chars, dot + 1);
        if end < n {
            assert(!all_digits(fraction_part(body))) by {
                assert(fraction_part(body)[end - dot - 1] == chars@[end as int]);
            }
            return None;
        }
        assert(fraction_part(body) == chars@.subrange(dot + 1, end as int));
        if whole_digits.len() == 0 && fraction_digits.len() == 0 {
            return None;
        }
        let whole = drop_leading_zeros(whole_digits);
        let fraction = drop_trailing_zeros(fraction_digits);
        Some(Amount { negative, whole, fraction })
    }

    /// Whether the amount carries a minus sign.
    pub fn is_negative(&self) -> (negative: bool)
        ensures
            negative == self@.negative,
    {
        self.negative
    }

    /// Appends the amount's shortest numeral to `out`.
    pub fn push_text(&self, out: &mut String)
        ensures
            final(out)@ == old(out)@ + self@.text(),
    {
        proof {
            use_type_invariant(self);
        }
        if self.negative {
            push_char(out, '-');
        }
        if self.whole.len() == 0 {
            push_char(out, '0');
        } else {
            push_digits(out, &self.whole);
        }
        if self.fraction.len() != 0 {
            push_char(out, '.');
            push_digits(out, &self.fraction);
        }
        assert(out@ =~= old(out)@ + self@.text());
    }

    /// The amount's shortest numeral.
    pub fn to_text(&self) -> (text: String)
        ensures
            text@ == self@.text(),
    {
        let mut text = String::new();
        self.push_text(&mut text);
        text
    }

    /// The value times one thousand, rounded toward zero, with the sign
    /// turned when `negated` is set; a result beyond the 64-bit range is
    /// replaced by the nearest bound.
    pub fn thousandths_saturating(&self, negated: bool) -> (scaled: i64)
        ensures
            scaled == clamp_i64(
                if negated {
                    -self@.thousandths()
                } else {
                    self@.thousandths()
                },
            ),
    {
        proof {
            use_type_invariant(self);
            lemma_magnitude_thousandths(self@);
        }
        let below_zero = self.negative != negated;
        let mut units: u64 = 0;
        let mut beyond = false;
        let mut i: usize = 0;
        while i < self.whole.len()
            invariant
                i <= self.whole.len(),
                forall|k: int| 0 <= k < self.whole.len() ==> #[trigger] self.whole[k] < 10,
                !beyond ==> units == digits_value(self.whole@.take(i as int)) && units
                    < WHOLE_LIMIT,
                beyond ==> digits_value(self.whole@.take(i as int)) >= WHOLE_LIMIT,
            decreases self.whole.len() - i,
        {
            proof {
                assert(self.whole@.take(i + 1).drop_last() =~= self.whole@.take(i as int));
            }
            if !beyond {
                units = units * 10 + self.whole[i] as u64;
                if units >= WHOLE_LIMIT {
                    beyond = true;
                }
            }
            i += 1;
        }
        proof {
            assert(self.whole@.take(self.whole.len() as int) =~= self.whole@);
        }
        if beyond {
            return if below_zero {
                i64::MIN
            } else {
                i64::MAX
            };
        }
        let mut places: u64 = 0;
        if self.fraction.len() > 0 {
            places = places + self.fraction[0] as u64 * 100;
        }
        if self.fraction.len() > 1 {
            places = places + self.fraction[1] as u64 * 10;
        }
        if self.fraction.len() > 2 {
            places = places + self.fraction[2] as u64;
        }
        let magnitude: u64 = units * 1000 + places;
        if below_zero {
            if magnitude >= 9_223_372_036_854_775_808 {
                i64::MIN
            } else {
                -(magnitude as i64)
            }
        } else {
            if magnitude > 9_223_372_036_854_775_807 {
                i64::MAX
            } else {
                magnitude as i64
            }
        }
    }
}

/// Powers of ten multiply by adding exponents.
pub proof fn lemma_pow10_add(a: nat, b: nat)
    ensures
        pow10(a + b) == pow10(a) * pow10(b),
    decreases a,
{
    if a == 0 {
        assert(pow10(a) * pow10(b) == pow10(b)) by (nonlinear_arith)
            requires
                pow10(a) == 1,
        ;
    } else {
        lemma_pow10_add((a - 1) as nat, b);
        assert(pow10(a + b) == 10 * pow10((a - 1) as nat + b));
        assert(10 * (pow10((a - 1) as nat) * pow10(b)) == (10 * pow10((a - 1) as nat)) * pow10(b))
            by (nonlinear_arith);
    }
}

/// Writing `b` behind `a` shifts `a` left by the length of `b`.
pub proof fn lemma_digits_value_concat(a: Seq<u8>, b: Seq<u8>)
    ensures
        digits_value(a + b) == digits_value(a) * pow10(b.len()) + digits_value(b),
    decreases b.len(),
{
    if b.len() == 0 {
        assert(a + b =~= a);
        assert(digits_value(a) * pow10(b.len()) == digits_value(a)) by (nonlinear_arith)
            requires
                pow10(b.len()) == 1,
        ;
    } else {
        lemma_digits_value_concat(a, b.drop_last());
        assert((a + b).drop_last() =~= a + b.drop_last());
        assert((a + b).last() == b.last());
        let shorter = pow10((b.len() - 1) as nat);
        let front = digits_value(a);
        let back = digits_value(b.drop_last());
        assert(pow10(b.len()) == 10 * shorter);
        assert(digits_value(a + b) == (front * shorter + back) * 10 + b.last() as nat);
        assert((front * shorter + back) * 10 == front * (10 * shorter) + back * 10)
            by (nonlinear_arith);
    }
}

/// A numeral of `n` digits writes a number below ten to the `n`.
pub proof fn lemma_digits_value_bound(d: Seq<u8>)
    requires
        forall|i: int| 0 <= i < d.len() ==> #[trigger] d[i] < 10,
    ensures
        digits_value(d) < pow10(d.len()),
    decreases d.len(),
{
    if d.len() > 0 {
        lemma_digits_value_bound(d.drop_last());
    }
}

/// Scaling by one thousand and rounding down keeps the whole part and the
/// first three places of the fraction, and drops the rest.
pub proof fn lemma_magnitude_thousandths(amount: Decimal)
    requires
        forall|i: int| 0 <= i < amount.fraction.len() ==> #[trigger] amount.fraction[i] < 10,
    ensures
        amount.magnitude_thousandths() == digits_value(amount.whole) * 1000 + leading_thousandths(
            amount.fraction,
        ),
{
    let f = amount.fraction;
    let k = f.len();
    let p = pow10(k) as int;
    let w = digits_value(amount.whole) as int;
    let fv = digits_value(f) as int;
    let f3 = leading_thousandths(f) as int;
    lemma_digits_value_concat(amount.whole, f);
    lemma_digits_value_bound(f);
    reveal_with_fuel(digits_value, 4);
    reveal_with_fuel(pow10, 4);
    // The fraction, scaled, is its first three places and a rest below one.
    let rest = fv * 1000 - f3 * p;
    assert(0 <= rest < p) by {
        if k == 0 {
            assert(rest == 0) by (nonlinear_arith)
                requires
                    rest == fv * 1000 - f3 * p,
                    fv == 0,
                    f3 == 0,
            ;
        } else if k == 1 {
            assert(f.drop_last().len() == 0);
            assert(rest == 0) by (nonlinear_arith)
                requires
                    rest == fv * 1000 - f3 * p,
                    p == 10,
                    fv == f[0],
                    f3 == f[0] * 100,
            ;
        } else if k == 2 {
            assert(f.drop_last().drop_last().len() == 0);
            assert(f.drop_last().last() == f[0]);
            assert(rest == 0) by (nonlinear_arith)
                requires
                    rest == fv * 1000 - f3 * p,
                    p == 100,
                    fv == f[0] * 10 + f[1],
                    f3 == f[0] * 100 + f[1] * 10,
            ;
        } else if k == 3 {
            assert(f.drop_last().drop_last().drop_last().len() == 0);
            assert(f.drop_last().last() == f[1]);
            assert(f.drop_last().drop_last().last() == f[0]);
            assert(rest == 0) by (nonlinear_arith)
                requires
                    rest == fv * 1000 - f3 * p,
                    p == 1000,
                    fv == (f[0] * 10 + f[1]) * 10 + f[2],
                    f3 == f[0] * 100 + f[1] * 10 + f[2],
            ;
        } else {
            let head = f.take(3);
            let tail = f.skip(3);
            assert(head + tail =~= f);
            lemma_digits_value_concat(head, tail);
            lemma_digits_value_bound(tail);
            let q = pow10(tail.len()) as int;
            assert(digits_value(head) == f3) by {
                assert(head.drop_last().drop_last().drop_last().len() == 0);
                assert(head.last() == f[2]);
                assert(head.drop_last().last() == f[1]);
                assert(head.drop_last().drop_last().last() == f[0]);
            }
            lemma_pow10_add(3, tail.len());
            assert(p == 1000 * q);
            assert(fv == f3 * q + digits_value(tail));
            assert(rest == digits_value(tail) * 1000) by (nonlinear_arith)
                requires
                    rest == fv * 1000 - f3 * p,
                    p == 1000 * q,
                    fv == f3 * q + digits_value(tail),
            ;
        }
    }
    let total = (w * p + fv) * 1000;
    assert(total == (w * 1000 + f3) * p + rest) by (nonlinear_arith)
        requires
            total == (w * p + fv) * 1000,
            rest == fv * 1000 - f3 * p,
    ;
    vstd::arithmetic::div_mod::lemma_fundamental_div_mod_converse(total, p, w * 1000 + f3, rest);
}

/// An amount with at most three places after the point scales to zero only
/// if it is zero.
pub proof fn lemma_thousandths_zero(amount: Decimal)
    requires
        forall|i: int| 0 <= i < amount.fraction.len() ==> #[trigger] amount.fraction[i] < 10,
        amount.fraction.len() <= 3,
    ensures
        amount.magnitude_thousandths() == 0 <==> amount.is_zero(),
{
    let f = amount.fraction;
    let w = digits_value(amount.whole);
    let p = pow10(f.len());
    lemma_magnitude_thousandths(amount);
    lemma_digits_value_concat(amount.whole, f);
    reveal_with_fuel(digits_value, 4);
    reveal_with_fuel(pow10, 4);
    if f.len() == 1 {
        assert(f.drop_last().len() == 0);
    } else if f.len() == 2 {
        assert(f.drop_last().drop_last().len() == 0);
        assert(f.drop_last().last() == f[0]);
    } else if f.len() == 3 {
        assert(f.drop_last().drop_last().drop_last().len() == 0);
        assert(f.drop_last().last() == f[1]);
        assert(f.drop_last().drop_last().last() == f[0]);
    }
    assert(leading_thousandths(f) == 0 <==> digits_value(f) == 0);
    assert(w * p == 0 <==> w == 0) by (nonlinear_arith)
        requires
            p >= 1,
    ;
    assert(w * p >= 0) by (nonlinear_arith)
        requires
            p >= 1,
    ;
}

/// Digits are written one character each, and the character tells the digit.
pub proof fn lemma_digit_chars(d: Seq<u8>)
    requires
        forall|i: int| 0 <= i < d.len() ==> #[trigger] d[i] < 10,
    ensures
        digit_chars(d).len() == d.len(),
        forall|i: int|
            0 <= i < d.len() ==> is_digit(#[trigger] digit_chars(d)[i]) && digit_value(
                digit_chars(d)[i],
            ) == d[i],
{
}

/// An amount is written with digits, a decimal point and a minus sign, and
/// with nothing else.
pub proof fn lemma_text_alphabet(a: Decimal)
    requires
        a.is_canonical(),
    ensures
        a.text().len() >= 1,
        forall|i: int|
            0 <= i < a.text().len() ==> is_digit(#[trigger] a.text()[i]) || a.text()[i] == '.'
                || a.text()[i] == '-',
{
    lemma_digit_chars(a.whole);
    lemma_digit_chars(a.fraction);
    let (s, w, f) = (a.sign_text(), a.whole_text(), a.fraction_text());
    assert forall|i: int| 0 <= i < a.text().len() implies is_digit(#[trigger] a.text()[i])
        || a.text()[i] == '.' || a.text()[i] == '-' by {
        if i < s.len() {
        } else if i < s.len() + w.len() {
            assert(a.text()[i] == w[i - s.len()]);
        } else {
            let j = i - s.len() - w.len();
            assert(a.text()[i] == f[j]);
            if j > 0 {
                assert(f[j] == digit_chars(a.fraction)[j - 1]);
            }
        }
    }
}

/// Two canonical amounts that are written alike are the same amount.
pub proof fn lemma_text_injective(a: Decimal, b: Decimal)
    requires
        a.is_canonical(),
        b.is_canonical(),
        a.text() == b.text(),
    ensures
        a == b,
{
    lemma_digit_chars(a.whole);
    lemma_digit_chars(b.whole);
    lemma_digit_chars(a.fraction);
    lemma_digit_chars(b.fraction);
    let (wa, wb) = (a.whole_text(), b.whole_text());
    let (fa, fb) = (a.fraction_text(), b.fraction_text());
    assert(is_digit(wa[0]) && is_digit(wb[0]));
    // The sign.
    assert(a.negative == b.negative) by {
        assert(a.text()[0] == if a.negative {
            '-'
        } else {
            wa[0]
        });
        assert(b.text()[0] == if b.negative {
            '-'
        } else {
            wb[0]
        });
    }
    let sign = a.sign_text().len() as int;
    let body_a = wa + fa;
    let body_b = wb + fb;
    assert(body_a =~= a.text().skip(sign));
    assert(body_b =~= b.text().skip(sign));
    // The whole part ends where the first character stands that is no digit.
    assert(wa.len() == wb.len()) by {
        if wa.len() < wb.len() {
            let k = wa.len() as int;
            assert(body_b[k] == wb[k]);
            assert(is_digit(wb[k]));
            if fa.len() > 0 {
                assert(body_a[k] == fa[0]);
            }
        } else if wb.len() < wa.len() {
            let k = wb.len() as int;
            assert(body_a[k] == wa[k]);
            assert(is_digit(wa[k]));
            if fb.len() > 0 {
                assert(body_b[k] == fb[0]);
            }
        }
    }
    assert(wa =~= body_a.take(wa.len() as int));
    assert(wb =~= body_b.take(wb.len() as int));
    assert(fa =~= body_a.skip(wa.len() as int));
    assert(fb =~= body_b.skip(wb.len() as int));
    assert(a.whole =~= b.whole) by {
        if a.whole.len() == 0 {
            if b.whole.len() > 0 {
                assert(digit_value(wb[0]) == b.whole[0]);
            }
        } else {
            if b.whole.len() == 0 {
                assert(digit_value(wa[0]) == a.whole[0]);
            } else {
                assert forall|i: int| 0 <= i < a.whole.len() implies a.whole[i] == b.whole[i] by {
                    assert(digit_value(wa[i]) == a.whole[i]);
                    assert(digit_value(wb[i]) == b.whole[i]);
                }
            }
        }
    }
    assert(a.fraction =~= b.fraction) by {
        if a.fraction.len() > 0 {
            assert(fb.len() > 0);
            assert forall|i: int| 0 <= i < a.fraction.len() implies a.fraction[i]
                == b.fraction[i] by {
                assert(fa[i + 1] == digit_chars(a.fraction)[i]);
                assert(fb[i + 1] == digit_chars(b.fraction)[i]);
            }
        }
    }
}

/// Stripping zeros at the front keeps digits digits and leaves no zero at
/// the front.
pub proof fn lemma_strip_leading_zeros(d: Seq<u8>)
    requires
        forall|i: int| 0 <= i < d.len() ==> #[trigger] d[i] < 10,
    ensures
        forall|i: int|
            0 <= i < strip_leading_zeros(d).len() ==> #[trigger] strip_leading_zeros(d)[i] < 10,
        strip_leading_zeros(d).len() > 0 ==> strip_leading_zeros(d)[0] != 0,
    decreases d.len(),
{
    if d.len() > 0 && d[0] == 0 {
        lemma_strip_leading_zeros(d.skip(1));
    }
}

/// Stripping zeros at the end keeps digits digits and leaves no zero at the
/// end.
pub proof fn lemma_strip_trailing_zeros(d: Seq<u8>)
    requires
        forall|i: int| 0 <= i < d.len() ==> #[trigger] d[i] < 10,
    ensures
        forall|i: int|
            0 <= i < strip_trailing_zeros(d).len() ==> #[trigger] strip_trailing_zeros(d)[i] < 10,
        strip_trailing_zeros(d).len() > 0 ==> strip_trailing_zeros(d).last() != 0,
    decreases d.len(),
{
    if d.len() > 0 && d.last() == 0 {
        lemma_strip_trailing_zeros(d.drop_last());
    }
}

/// What is read from a numeral is canonical.
pub proof fn lemma_parse_decimal_canonical(text: Seq<char>)
    ensures
        parse_decimal(text) matches Some(amount) ==> amount.is_canonical(),
{
    let body = unsigned_part(text);
    let whole = whole_part(body);
    let fraction = fraction_part(body);
    if all_digits(whole) && all_digits(fraction) {
        assert forall|i: int| 0 <= i < whole.len() implies #[trigger] digit_values(whole)[i]
            < 10 by {
            assert(is_digit(whole[i]));
        }
        assert forall|i: int| 0 <= i < fraction.len() implies #[trigger] digit_values(fraction)[i]
            < 10 by {
            assert(is_digit(fraction[i]));
        }
        lemma_strip_leading_zeros(digit_values(whole));
        lemma_strip_trailing_zeros(digit_values(fraction));
    }
}

} // verus!
