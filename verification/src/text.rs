//! Numbers as decimal text, and text as sequences of characters.

use crate::scalar::{mag, Scalar, UNIT};
use vstd::prelude::*;

verus! {

/// `String::push` appends one character to the text.
pub assume_specification[ String::push ](s: &mut String, c: char)
    ensures
        final(s)@ == old(s)@.push(c),
;

/// The characters of a text.
pub fn chars_of(s: &str) -> (r: Vec<char>)
    ensures
        r@ == s@,
{
    let mut out: Vec<char> = Vec::new();
    for c in it: s.chars()
        invariant
            out@ == s@.take(it.index() as int),
            it.seq() == s@,
    {
        out.push(c);
        assert(s@.take(it.index() + 1) =~= s@.take(it.index() as int).push(s@[it.index() as int]));
    }
    assert(s@.take(s@.len() as int) =~= s@);
    out
}

/// The text made of the given characters.
pub fn text_of(chars: &Vec<char>) -> (r: String)
    ensures
        r@ == chars@,
{
    let mut out = String::new();
    let mut i: usize = 0;
    while i < chars.len()
        invariant
            i <= chars.len(),
            out@ == chars@.take(i as int),
        decreases chars.len() - i,
    {
        out.push(chars[i]);
        assert(chars@.take(i + 1) =~= chars@.take(i as int).push(chars@[i as int]));
        i = i + 1;
    }
    assert(chars@.take(chars@.len() as int) =~= chars@);
    out
}

/// Whether two texts hold the same characters.
pub fn same_text(a: &str, b: &str) -> (r: bool)
    ensures
        r == (a@ == b@),
{
    let left = chars_of(a);
    let right = chars_of(b);
    if left.len() != right.len() {
        return false;
    }
    let mut i: usize = 0;
    while i < left.len()
        invariant
            i <= left.len(),
            left@ == a@,
            right@ == b@,
            left@.len() == right@.len(),
            forall|k: int| 0 <= k < i ==> left@[k] == right@[k],
        decreases left.len() - i,
    {
        if left[i] != right[i] {
            assert(a@[i as int] != b@[i as int]);
            return false;
        }
        i = i + 1;
    }
    assert(left@ =~= right@);
    true
}

/// Whether the character is a decimal digit.
pub open spec fn is_digit(c: char) -> bool {
    '0' <= c && c <= '9'
}

/// The value of a decimal digit.
pub open spec fn digit_value(c: char) -> nat {
    (c as u32 - 48) as nat
}

/// The decimal digit of a value below ten.
pub open spec fn digit_char(d: nat) -> char {
    ((d + 48) as u8) as char
}

/// Whether all characters are decimal digits.
pub open spec fn all_digits(s: Seq<char>) -> bool {
    forall|i: int| 0 <= i < s.len() ==> is_digit(#[trigger] s[i])
}

/// The number that a sequence of decimal digits stands for.
pub open spec fn digits_value(s: Seq<char>) -> nat
    decreases s.len(),
{
    if s.len() == 0 {
        0
    } else {
        digits_value(s.drop_last()) * 10 + digit_value(s.last())
    }
}

/// The decimal digits of a number, without leading zeros.
pub open spec fn natural_digits(n: nat) -> Seq<char>
    decreases n,
{
    if n < 10 {
        seq![digit_char(n)]
    } else {
        natural_digits(n / 10).push(digit_char(n % 10))
    }
}

/// The last `width` decimal digits of a number, with leading zeros.
pub open spec fn fixed_digits(n: nat, width: nat) -> Seq<char>
    decreases width,
{
    if width == 0 {
        Seq::empty()
    } else {
        fixed_digits(n / 10, (width - 1) as nat).push(digit_char(n % 10))
    }
}

/// A number of millionths as decimal text: a minus sign below zero, the whole part, a point
/// and six digits.
pub open spec fn decimal_text(v: int) -> Seq<char> {
    (if v < 0 {
        seq!['-']
    } else {
        Seq::empty()
    }) + natural_digits((mag(v) / (UNIT as int)) as nat) + seq!['.'] + fixed_digits(
        (mag(v) % (UNIT as int)) as nat,
        6,
    )
}

/// Where the first point of a text stands; its length where it has none.
pub open spec fn first_point(s: Seq<char>) -> int {
    choose|p: int| is_first_point(s, p)
}

/// `p` is where the first point of `s` stands, or its length where it has none.
pub open spec fn is_first_point(s: Seq<char>, p: int) -> bool {
    &&& 0 <= p <= s.len()
    &&& forall|i: int| 0 <= i < p ==> #[trigger] s[i] != '.'
    &&& p == s.len() || s[p] == '.'
}

/// How many millionths the digit at place `k` after the point counts for.
pub open spec fn place_weight(k: int) -> nat {
    if k == 0 {
        100_000
    } else if k == 1 {
        10_000
    } else if k == 2 {
        1_000
    } else if k == 3 {
        100
    } else if k == 4 {
        10
    } else if k == 5 {
        1
    } else {
        0
    }
}

/// The millionths that the first `upto` digits after the point stand for; digits after the
/// sixth count for nothing.
pub open spec fn fraction_value(s: Seq<char>, upto: int) -> nat
    decreases upto,
{
    if upto <= 0 {
        0
    } else {
        fraction_value(s, upto - 1) + digit_value(s[upto - 1]) * place_weight(upto - 1)
    }
}

/// The millionths that the places from `k` on can still add, and one.
pub open spec fn places_left(k: int) -> nat {
    if k <= 0 {
        1_000_000
    } else if k >= 6 {
        1
    } else {
        place_weight(k - 1)
    }
}

/// The text without its minus sign, where it has one.
pub open spec fn unsigned_part(s: Seq<char>) -> Seq<char> {
    if s.len() > 0 && s[0] == '-' {
        s.skip(1)
    } else {
        s
    }
}

/// The digits before the point of an unsigned decimal text.
pub open spec fn whole_part(body: Seq<char>) -> Seq<char> {
    body.take(first_point(body))
}

/// The digits after the point of an unsigned decimal text.
pub open spec fn fraction_part(body: Seq<char>) -> Seq<char> {
    if first_point(body) < body.len() {
        body.skip(first_point(body) + 1)
    } else {
        Seq::empty()
    }
}

/// Whether an unsigned text is a decimal number: digits, and after a point, if there is one,
/// digits again; at least one digit in each part.
pub open spec fn is_decimal(body: Seq<char>) -> bool {
    &&& whole_part(body).len() > 0
    &&& all_digits(whole_part(body))
    &&& first_point(body) < body.len() ==> fraction_part(body).len() > 0
    &&& all_digits(fraction_part(body))
}

/// The magnitude, in millionths, of an unsigned decimal text. Digits after the sixth place
/// are dropped.
pub open spec fn decimal_magnitude(body: Seq<char>) -> nat {
    digits_value(whole_part(body)) * (UNIT as nat) + fraction_value(
        fraction_part(body),
        fraction_part(body).len() as int,
    )
}

/// The number of millionths that a decimal text stands for: an optional minus sign, digits,
/// and optionally a point and more digits. Nothing for any other text, and nothing for a
/// number too large to hold.
pub open spec fn decimal_value(s: Seq<char>) -> Option<int> {
    let body = unsigned_part(s);
    if !is_decimal(body) {
        None
    } else if s != body {
        if decimal_magnitude(body) <= 0x8000_0000_0000_0000 {
            Some(-(decimal_magnitude(body) as int))
        } else {
            None
        }
    } else {
        if decimal_magnitude(body) <= 0x7fff_ffff_ffff_ffff {
            Some(decimal_magnitude(body) as int)
        } else {
            None
        }
    }
}

/// The whole number that a text of decimal digits stands for; nothing for any other text,
/// and nothing for a number above `limit`.
pub open spec fn natural_value(s: Seq<char>, limit: nat) -> Option<nat> {
    if s.len() > 0 && all_digits(s) && digits_value(s) <= limit {
        Some(digits_value(s))
    } else {
        None
    }
}

/// Every text has a first point, or none before its end.
pub proof fn lemma_first_point_exists(s: Seq<char>, from: int)
    requires
        0 <= from <= s.len(),
        forall|i: int| 0 <= i < from ==> #[trigger] s[i] != '.',
    ensures
        is_first_point(s, first_point(s)),
    decreases s.len() - from,
{
    if from == s.len() || s[from] == '.' {
        assert(is_first_point(s, from));
    } else {
        lemma_first_point_exists(s, from + 1);
    }
}

/// A position that has no point before it and a point on it (or the end) is the first point.
pub proof fn lemma_first_point(s: Seq<char>, p: int)
    requires
        is_first_point(s, p),
    ensures
        first_point(s) == p,
{
    let q = first_point(s);
    assert(is_first_point(s, q));
    if q < p {
        assert(s[q] != '.');
    }
    if p < q {
        assert(s[p] != '.');
    }
}

/// The value of the first digits of a sequence is not above the value of all of it.
pub proof fn lemma_digits_value_grows(s: Seq<char>, i: int)
    requires
        0 <= i <= s.len(),
    ensures
        digits_value(s.take(i)) <= digits_value(s),
    decreases s.len() - i,
{
    if i < s.len() {
        lemma_digits_value_grows(s, i + 1);
        assert(s.take(i + 1).drop_last() =~= s.take(i));
    } else {
        assert(s.take(i) =~= s);
    }
}

/// The decimal digit of a value below ten.
fn digit_of(d: u8) -> (r: char)
    requires
        d < 10,
    ensures
        r == digit_char(d as nat),
        is_digit(r),
        digit_value(r) == d,
{
    (48u8 + d) as char
}

/// The value of a character, where it is a decimal digit.
fn value_of_digit(c: char) -> (r: Option<u8>)
    ensures
        r is Some == is_digit(c),
        r matches Some(d) ==> d == digit_value(c) && d < 10,
{
    if c >= '0' && c <= '9' {
        Some((c as u32 - 48) as u8)
    } else {
        None
    }
}

/// Appends the decimal digits of `n`.
fn push_natural(out: &mut Vec<char>, n: u64)
    ensures
        final(out)@ == old(out)@ + natural_digits(n as nat),
    decreases n,
{
    if n >= 10 {
        push_natural(out, n / 10);
    }
    out.push(digit_of((n % 10) as u8));
    assert(old(out)@ + natural_digits(n as nat) =~= out@);
}

/// Appends the last `width` decimal digits of `n`.
fn push_fixed(out: &mut Vec<char>, n: u64, width: u8)
    ensures
        final(out)@ == old(out)@ + fixed_digits(n as nat, width as nat),
    decreases width,
{
    if width > 0 {
        push_fixed(out, n / 10, width - 1);
        out.push(digit_of((n % 10) as u8));
    }
    assert(old(out)@ + fixed_digits(n as nat, width as nat) =~= out@);
}

/// The decimal digits of a whole number.
pub fn natural_text(n: u64) -> (r: String)
    ensures
        r@ == natural_digits(n as nat),
{
    let mut out: Vec<char> = Vec::new();
    push_natural(&mut out, n);
    text_of(&out)
}

/// The whole number that a text of decimal digits stands for.
pub fn parse_natural(text: &str, limit: u64) -> (r: Option<u64>)
    ensures
        r matches Some(n) ==> natural_value(text@, limit as nat) == Some(n as nat),
        r is None ==> natural_value(text@, limit as nat) is None,
{
    let chars = chars_of(text);
    if chars.len() == 0 {
        return None;
    }
    let mut value: u64 = 0;
    let mut i: usize = 0;
    while i < chars.len()
        invariant
            i <= chars.len(),
            chars@ == text@,
            all_digits(chars@.take(i as int)),
            value == digits_value(chars@.take(i as int)),
            value <= limit,
        decreases chars.len() - i,
    {
        proof {
            assert(chars@.take(i + 1).drop_last() =~= chars@.take(i as int));
            lemma_digits_value_grows(chars@, i + 1);
        }
        match value_of_digit(chars[i]) {
            None => {
                return None;
            },
            Some(d) => {
                let next: u128 = (value as u128) * 10 + (d as u128);
                if next > limit as u128 {
                    return None;
                }
                value = next as u64;
            },
        }
        i = i + 1;
    }
    assert(chars@.take(chars@.len() as int) =~= chars@);
    Some(value)
}

impl Scalar {
    /// The number as decimal text: a minus sign below zero, the whole part, a point and six
    /// digits.
    pub fn to_text(&self) -> (r: String)
        ensures
            r@ == decimal_text(self@),
    {
        let mut out: Vec<char> = Vec::new();
        let magnitude: u64 = if self.micros < 0 {
            out.push('-');
            if self.micros == i64::MIN {
                0x8000_0000_0000_0000u64
            } else {
                (-self.micros) as u64
            }
        } else {
            self.micros as u64
        };
        push_natural(&mut out, magnitude / 1_000_000);
        out.push('.');
        push_fixed(&mut out, magnitude % 1_000_000, 6);
        assert(out@ =~= decimal_text(self@));
        text_of(&out)
    }

    /// The number that a decimal text stands for.
    pub fn parse(text: &str) -> (r: Option<Scalar>)
        ensures
            r matches Some(v) ==> decimal_value(text@) == Some(v@),
            r is None ==> decimal_value(text@) is None,
    {
        let chars = chars_of(text);
        let negative = chars.len() > 0 && chars[0] == '-';
        let start: usize = if negative {
            1
        } else {
            0
        };
        let ghost body = unsigned_part(text@);
        assert(body =~= chars@.skip(start as int));
        // the whole part
        let mut whole: u64 = 0;
        let mut i: usize = start;
        while i < chars.len() && value_of_digit(chars[i]).is_some()
            invariant
                start <= i <= chars.len(),
                body == chars@.skip(start as int),
                body == unsigned_part(text@),
                all_digits(body.take(i - start)),
                whole == digits_value(body.take(i - start)),
                whole <= 100_000_000_000_000,
            decreases chars.len() - i,
        {
            proof {
                assert(body.take(i + 1 - start).drop_last() =~= body.take(i - start));
                assert(body[i - start] == chars@[i as int]);
            }
            let d = value_of_digit(chars[i]).unwrap();
            let next: u64 = whole * 10 + d as u64;
            if next > 100_000_000_000_000 {
                proof {
                    // whatever follows, the number is too large or the text no number
                    let k = i + 1 - start;
                    if is_decimal(body) {
                        let p = first_point(body);
                        lemma_first_point_exists(body, 0);
                        assert(p >= k) by {
                            if p < k {
                                assert(body[p] == '.');
                                assert(is_digit(body.take(k)[p]));
                            }
                        }
                        lemma_digits_value_grows(body.take(p), k);
                        assert(body.take(p).take(k) =~= body.take(k));
                        assert(digits_value(whole_part(body)) * 1_000_000 > 0x8000_0000_0000_0000)
                            by (nonlinear_arith)
                            requires
                                digits_value(whole_part(body)) > 100_000_000_000_000,
                        ;
                    }
                }
                return None;
            }
            whole = next;
            i = i + 1;
        }
        let point: usize = i;
        proof {
            if point < chars.len() && chars@[point as int] == '.' {
                assert forall|j: int| 0 <= j < point - start implies #[trigger] body[j] != '.' by {
                    assert(is_digit(body.take(point - start)[j]));
                }
                lemma_first_point(body, point - start);
            } else if point == chars.len() {
                assert forall|j: int| 0 <= j < point - start implies #[trigger] body[j] != '.' by {
                    assert(is_digit(body.take(point - start)[j]));
                }
                lemma_first_point(body, point - start);
            } else {
                // a character that is neither digit nor point stands in the whole part
                let p = first_point(body);
                lemma_first_point_exists(body, 0);
                assert(p >= point - start) by {
                    if p < point - start {
                        assert(is_digit(body.take(point - start)[p]));
                    }
                }
                if is_decimal(body) {
                    assert(body[point - start] == chars@[point as int]);
                    assert(p > point - start);
                    assert(is_digit(body.take(p)[point - start]));
                }
            }
        }
        if point == start {
            return None;
        }
        let mut fraction: u64 = 0;
        if point < chars.len() {
            if chars[point] != '.' {
                return None;
            }
            if point + 1 == chars.len() {
                return None;
            }
            let ghost tail = fraction_part(body);
            assert(tail =~= chars@.skip(point + 1));
            let mut j: usize = point + 1;
            while j < chars.len()
                invariant
                    point + 1 <= j <= chars.len(),
                    tail == chars@.skip(point + 1),
                    tail == fraction_part(body),
                    body == unsigned_part(text@),
                    all_digits(tail.take(j - point - 1)),
                    fraction == fraction_value(tail, j - point - 1),
                    fraction + places_left(j - point - 1) <= 1_000_000,
                decreases chars.len() - j,
            {
                assert(tail[j - point - 1] == chars@[j as int]);
                match value_of_digit(chars[j]) {
                    None => {
                        assert(!is_digit(tail[j - point - 1]));
                        return None;
                    },
                    Some(d) => {
                        let k: usize = j - point - 1;
                        let weight: u64 = if k == 0 {
                            100_000
                        } else if k == 1 {
                            10_000
                        } else if k == 2 {
                            1_000
                        } else if k == 3 {
                            100
                        } else if k == 4 {
                            10
                        } else if k == 5 {
                            1
                        } else {
                            0
                        };
                        assert(weight == place_weight(k as int));
                        assert(d * weight <= 9 * weight) by (nonlinear_arith)
                            requires
                                d <= 9,
                                weight >= 0,
                        ;
                        assert(10 * weight + places_left(k + 1) <= places_left(k as int) + weight);
                        fraction = fraction + (d as u64) * weight;
                    },
                }
                j = j + 1;
            }
            assert(tail.take(tail.len() as int) =~= tail);
        }
        assert(is_decimal(body));
        assert(body.take(point - start) =~= whole_part(body));
        let magnitude: u128 = (whole as u128) * 1_000_000 + fraction as u128;
        assert(magnitude == decimal_magnitude(body));
        if negative {
            if magnitude > 0x8000_0000_0000_0000u128 {
                None
            } else if magnitude == 0x8000_0000_0000_0000u128 {
                Some(Scalar { micros: i64::MIN })
            } else {
                Some(Scalar { micros: -(magnitude as i64) })
            }
        } else {
            if magnitude > 0x7fff_ffff_ffff_ffffu128 {
                None
            } else {
                Some(Scalar { micros: magnitude as i64 })
            }
        }
    }
}

/// The digits of a number are digits, at least one of them, and stand for the number.
pub proof fn law_natural_digits(n: nat)
    ensures
        natural_digits(n).len() > 0,
        all_digits(natural_digits(n)),
        digits_value(natural_digits(n)) == n,
    decreases n,
{
    if n < 10 {
        let s = natural_digits(n);
        assert(s =~= seq![digit_char(n)]);
        assert(s.drop_last() =~= Seq::<char>::empty());
        assert(digits_value(s.drop_last()) == 0);
    } else {
        law_natural_digits(n / 10);
        let head = natural_digits(n / 10);
        let s = natural_digits(n);
        assert(s == head.push(digit_char(n % 10)));
        assert(s.drop_last() =~= head);
        assert forall|i: int| 0 <= i < s.len() implies is_digit(#[trigger] s[i]) by {
            if i < head.len() {
                assert(s[i] == head[i]);
            }
        }
    }
}

/// A whole number written as digits is read back as the same number, where it is not above
/// the limit.
pub proof fn law_natural_text_reads_back(n: nat, limit: nat)
    requires
        n <= limit,
    ensures
        natural_value(natural_digits(n), limit) == Some(n),
{
    law_natural_digits(n);
}

/// One more digit after the point adds its value times the weight of its place.
proof fn lemma_fraction_step(s: Seq<char>, k: int, d: nat, weight: nat)
    requires
        0 <= k,
        digit_value(s[k]) == d,
        place_weight(k) == weight,
    ensures
        fraction_value(s, k + 1) == fraction_value(s, k) + d * weight,
{
}

/// Six digits with leading zeros are six digits, and stand for the number below a million
/// that they were made of.
pub proof fn law_fixed_digits(f: nat)
    requires
        f < 1_000_000,
    ensures
        fixed_digits(f, 6).len() == 6,
        all_digits(fixed_digits(f, 6)),
        fraction_value(fixed_digits(f, 6), 6) == f,
{
    reveal_with_fuel(fixed_digits, 7);
    let s = fixed_digits(f, 6);
    let d5 = f % 10;
    let d4 = (f / 10) % 10;
    let d3 = (f / 100) % 10;
    let d2 = (f / 1_000) % 10;
    let d1 = (f / 10_000) % 10;
    let d0 = (f / 100_000) % 10;
    assert(f / 10 / 10 == f / 100 && f / 10 / 10 / 10 == f / 1_000 && f / 10 / 10 / 10 / 10 == f / 10_000 && f
        / 10 / 10 / 10 / 10 / 10 == f / 100_000);
    assert(s =~= seq![
        digit_char(d0),
        digit_char(d1),
        digit_char(d2),
        digit_char(d3),
        digit_char(d4),
        digit_char(d5),
    ]);
    assert(digit_value(s[0]) == d0 && digit_value(s[1]) == d1 && digit_value(s[2]) == d2 && digit_value(s[3])
        == d3 && digit_value(s[4]) == d4 && digit_value(s[5]) == d5);
    lemma_fraction_step(s, 0, d0, 100_000);
    lemma_fraction_step(s, 1, d1, 10_000);
    lemma_fraction_step(s, 2, d2, 1_000);
    lemma_fraction_step(s, 3, d3, 100);
    lemma_fraction_step(s, 4, d4, 10);
    lemma_fraction_step(s, 5, d5, 1);
    assert(d0 * 100_000 + d1 * 10_000 + d2 * 1_000 + d3 * 100 + d4 * 10 + d5 == f);
}

/// Digits, a point and digits again make a decimal number whose parts are those digits.
pub proof fn lemma_decimal_parts(whole: Seq<char>, frac: Seq<char>)
    requires
        whole.len() > 0,
        all_digits(whole),
        frac.len() > 0,
        all_digits(frac),
    ensures
        is_decimal(whole + seq!['.'] + frac),
        whole_part(whole + seq!['.'] + frac) == whole,
        fraction_part(whole + seq!['.'] + frac) == frac,
{
    let body = whole + seq!['.'] + frac;
    let p = whole.len() as int;
    assert(body[p] == '.');
    assert forall|i: int| 0 <= i < p implies #[trigger] body[i] != '.' by {
        assert(body[i] == whole[i]);
        assert(is_digit(whole[i]));
    }
    lemma_first_point(body, p);
    assert(whole_part(body) =~= whole);
    assert(fraction_part(body) =~= frac);
}

/// A number written as decimal text is read back as the same number.
pub proof fn law_decimal_text_reads_back(v: int)
    requires
        i64::MIN <= v <= i64::MAX,
    ensures
        decimal_value(decimal_text(v)) == Some(v),
{
    let unit = UNIT as int;
    let m = mag(v);
    let whole = natural_digits((m / unit) as nat);
    let frac = fixed_digits((m % unit) as nat, 6);
    law_natural_digits((m / unit) as nat);
    law_fixed_digits((m % unit) as nat);
    lemma_decimal_parts(whole, frac);
    let body = whole + seq!['.'] + frac;
    let s = decimal_text(v);
    assert(is_digit(whole[0]));
    assert(body[0] == whole[0]);
    assert(unsigned_part(s) == body && (s != body <==> v < 0)) by {
        if v < 0 {
            assert(s =~= seq!['-'] + body);
            assert(s[0] == '-');
            assert(s.skip(1) =~= body);
            assert(s.len() != body.len());
        } else {
            assert(s =~= body);
        }
    }
    assert(decimal_magnitude(body) == m) by {
        assert(decimal_magnitude(body) == (m / unit) * unit + m % unit);
    }
}

} // verus!
