//! Numbers written with an exponent: the text is turned into plain decimal text that stands
//! for the same number, and read as that.

use crate::scalar::Scalar;
use crate::text::{
    all_digits, chars_of, decimal_text, decimal_value, first_point, fraction_part, is_decimal, is_digit,
    is_first_point, law_decimal_text_reads_back, law_fixed_digits, law_natural_digits, lemma_first_point,
    natural_value, parse_natural, text_of, unsigned_part, whole_part,
};
use vstd::prelude::*;

verus! {

/// Whether a character marks the start of an exponent.
pub open spec fn is_mark(c: char) -> bool {
    c == 'e' || c == 'E'
}

/// `m` is where the first exponent mark of `s` stands, or its length where it has none.
pub open spec fn is_first_mark(s: Seq<char>, m: int) -> bool {
    &&& 0 <= m <= s.len()
    &&& forall|i: int| 0 <= i < m ==> !is_mark(#[trigger] s[i])
    &&& m == s.len() || is_mark(s[m])
}

/// Where the first exponent mark of a text stands; its length where it has none.
pub open spec fn first_mark(s: Seq<char>) -> int {
    choose|m: int| is_first_mark(s, m)
}

/// The exponent that a text stands for: a sign, if there is one, and digits that stand for
/// a number not above 999. Nothing for any other text.
pub open spec fn exponent_value(s: Seq<char>) -> Option<int> {
    let signed = s.len() > 0 && (s[0] == '+' || s[0] == '-');
    let digits = if signed {
        s.skip(1)
    } else {
        s
    };
    match natural_value(digits, 999) {
        Some(n) => Some(
            if signed && s[0] == '-' {
                -(n as int)
            } else {
                n as int
            },
        ),
        None => None,
    }
}

/// So many zeros.
pub open spec fn zeros(n: int) -> Seq<char> {
    Seq::new(
        if n > 0 {
            n as nat
        } else {
            0
        },
        |i: int| '0',
    )
}

/// An unsigned decimal text with its point moved `by` places to the right, or to the left
/// where `by` is below zero; zeros fill the places that the text does not have.
pub open spec fn shifted(body: Seq<char>, by: int) -> Seq<char> {
    let digits = whole_part(body) + fraction_part(body);
    let p = whole_part(body).len() + by;
    if p <= 0 {
        seq!['0', '.'] + zeros(-p) + digits
    } else if p >= digits.len() {
        digits + zeros(p - digits.len())
    } else {
        digits.take(p) + seq!['.'] + digits.skip(p)
    }
}

/// The plain decimal text that stands for the same number as a text that may have an
/// exponent. A text without exponent mark is taken as it is. One with a mark must have
/// before the mark a decimal number, with or without a minus sign, and after it an
/// exponent; its point moves by the exponent.
pub open spec fn without_exponent(s: Seq<char>) -> Option<Seq<char>> {
    let m = first_mark(s);
    if m >= s.len() {
        Some(s)
    } else {
        let mantissa = s.take(m);
        match exponent_value(s.skip(m + 1)) {
            Some(by) if is_decimal(unsigned_part(mantissa)) => Some(
                if mantissa.len() > 0 && mantissa[0] == '-' {
                    seq!['-'] + shifted(unsigned_part(mantissa), by)
                } else {
                    shifted(unsigned_part(mantissa), by)
                },
            ),
            _ => None,
        }
    }
}

/// The number of millionths that a text stands for, with or without an exponent: that of
/// the plain decimal text for the same number. Digits after the sixth place are dropped.
pub open spec fn number_value(s: Seq<char>) -> Option<int> {
    match without_exponent(s) {
        Some(plain) => decimal_value(plain),
        None => None,
    }
}

/// A position that has no mark before it and a mark on it (or the end) is the first mark.
pub proof fn lemma_first_mark(s: Seq<char>, m: int)
    requires
        is_first_mark(s, m),
    ensures
        first_mark(s) == m,
{
    let q = first_mark(s);
    assert(is_first_mark(s, q));
    if q < m {
        assert(!is_mark(s[q]));
    }
    if m < q {
        assert(!is_mark(s[m]));
    }
}

/// Appends the characters of `source` from place `from` up to place `to`.
fn append(out: &mut Vec<char>, source: &Vec<char>, from: usize, to: usize)
    requires
        from <= to <= source@.len(),
    ensures
        final(out)@ == old(out)@ + source@.subrange(from as int, to as int),
{
    let mut i: usize = from;
    while i < to
        invariant
            from <= i <= to,
            to <= source@.len(),
            out@ == old(out)@ + source@.subrange(from as int, i as int),
        decreases to - i,
    {
        out.push(source[i]);
        assert(source@.subrange(from as int, i + 1) =~= source@.subrange(from as int, i as int).push(
            source@[i as int],
        ));
        i = i + 1;
    }
}

/// Appends so many zeros.
fn append_zeros(out: &mut Vec<char>, count: usize)
    ensures
        final(out)@ == old(out)@ + zeros(count as int),
{
    let mut i: usize = 0;
    while i < count
        invariant
            i <= count,
            out@ == old(out)@ + zeros(i as int),
        decreases count - i,
    {
        out.push('0');
        assert(zeros(i + 1) =~= zeros(i as int).push('0'));
        i = i + 1;
    }
    assert(zeros(0) =~= Seq::<char>::empty());
}

/// Where the first exponent mark stands.
fn find_mark(chars: &Vec<char>) -> (r: usize)
    ensures
        r == first_mark(chars@),
        r <= chars@.len(),
{
    let mut i: usize = 0;
    while i < chars.len() && !(chars[i] == 'e' || chars[i] == 'E')
        invariant
            i <= chars.len(),
            forall|j: int| 0 <= j < i ==> !is_mark(#[trigger] chars@[j]),
        decreases chars.len() - i,
    {
        i = i + 1;
    }
    proof {
        lemma_first_mark(chars@, i as int);
    }
    i
}

/// Where the first point stands.
fn find_point(chars: &Vec<char>) -> (r: usize)
    ensures
        r == first_point(chars@),
        r <= chars@.len(),
{
    let mut i: usize = 0;
    while i < chars.len() && chars[i] != '.'
        invariant
            i <= chars.len(),
            forall|j: int| 0 <= j < i ==> #[trigger] chars@[j] != '.',
        decreases chars.len() - i,
    {
        i = i + 1;
    }
    proof {
        assert(is_first_point(chars@, i as int));
        lemma_first_point(chars@, i as int);
    }
    i
}

/// Whether the characters from place `from` up to place `to` are all decimal digits.
fn digits_between(chars: &Vec<char>, from: usize, to: usize) -> (r: bool)
    requires
        from <= to <= chars@.len(),
    ensures
        r == all_digits(chars@.subrange(from as int, to as int)),
{
    let mut i: usize = from;
    while i < to
        invariant
            from <= i <= to,
            to <= chars@.len(),
            all_digits(chars@.subrange(from as int, i as int)),
        decreases to - i,
    {
        if !(chars[i] >= '0' && chars[i] <= '9') {
            assert(!is_digit(chars@.subrange(from as int, to as int)[i - from]));
            return false;
        }
        assert forall|j: int| 0 <= j < i + 1 - from implies is_digit(
            #[trigger] chars@.subrange(from as int, i + 1)[j],
        ) by {
            if j < i - from {
                assert(is_digit(chars@.subrange(from as int, i as int)[j]));
            }
        }
        i = i + 1;
    }
    true
}

/// Whether the characters are a decimal number without sign.
fn decimal(body: &Vec<char>) -> (r: bool)
    ensures
        r == is_decimal(body@),
{
    let point = find_point(body);
    assert(whole_part(body@) =~= body@.subrange(0, point as int));
    if point == 0 || !digits_between(body, 0, point) {
        return false;
    }
    if point < body.len() {
        assert(fraction_part(body@) =~= body@.subrange(point + 1, body@.len() as int));
        point + 1 < body.len() && digits_between(body, point + 1, body.len())
    } else {
        assert(fraction_part(body@) =~= Seq::<char>::empty());
        true
    }
}

/// The exponent that the characters stand for.
fn read_exponent(chars: &Vec<char>) -> (r: Option<i32>)
    ensures
        match r {
            Some(by) => exponent_value(chars@) == Some(by as int) && -999 <= by <= 999,
            None => exponent_value(chars@) is None,
        },
{
    let signed = chars.len() > 0 && (chars[0] == '+' || chars[0] == '-');
    let start: usize = if signed {
        1
    } else {
        0
    };
    let mut digits: Vec<char> = Vec::new();
    append(&mut digits, chars, start, chars.len());
    assert(digits@ =~= if signed {
        chars@.skip(1)
    } else {
        chars@
    });
    let text = text_of(&digits);
    match parse_natural(text.as_str(), 999) {
        Some(n) => {
            if signed && chars[0] == '-' {
                Some(-(n as i32))
            } else {
                Some(n as i32)
            }
        },
        None => None,
    }
}

/// Moves the point of an unsigned decimal text.
fn shift(body: &Vec<char>, by: i32) -> (r: Vec<char>)
    requires
        -999 <= by <= 999,
    ensures
        r@ == shifted(body@, by as int),
{
    let point = find_point(body);
    let mut digits: Vec<char> = Vec::new();
    append(&mut digits, body, 0, point);
    if point < body.len() {
        append(&mut digits, body, point + 1, body.len());
    }
    assert(digits@ =~= whole_part(body@) + fraction_part(body@));
    assert(whole_part(body@).len() == point);
    let mut out: Vec<char> = Vec::new();
    let p: i128 = point as i128 + by as i128;
    if p <= 0 {
        out.push('0');
        out.push('.');
        append_zeros(&mut out, (-p) as usize);
        append(&mut out, &digits, 0, digits.len());
        assert(out@ =~= seq!['0', '.'] + zeros(-p as int) + digits@);
    } else if p >= digits.len() as i128 {
        append(&mut out, &digits, 0, digits.len());
        append_zeros(&mut out, (p - digits.len() as i128) as usize);
        assert(out@ =~= digits@ + zeros(p - digits@.len()));
    } else {
        append(&mut out, &digits, 0, p as usize);
        out.push('.');
        append(&mut out, &digits, p as usize, digits.len());
        assert(out@ =~= digits@.take(p as int) + seq!['.'] + digits@.skip(p as int));
    }
    out
}

impl Scalar {
    /// The number that a text stands for, written in decimal with or without an exponent, as
    /// in `1.5`, `-2e3` or `4.25E-7`. Nothing for any other text, and nothing for a number
    /// too large to hold.
    pub fn read(text: &str) -> (r: Option<Scalar>)
        ensures
            r matches Some(v) ==> number_value(text@) == Some(v@),
            r is None ==> number_value(text@) is None,
    {
        let chars = chars_of(text);
        let mark = find_mark(&chars);
        if mark >= chars.len() {
            return Scalar::parse(text);
        }
        let mut mantissa: Vec<char> = Vec::new();
        append(&mut mantissa, &chars, 0, mark);
        assert(mantissa@ =~= text@.take(mark as int));
        let mut tail: Vec<char> = Vec::new();
        append(&mut tail, &chars, mark + 1, chars.len());
        assert(tail@ =~= text@.skip(mark + 1));
        let by = match read_exponent(&tail) {
            Some(by) => by,
            None => {
                return None;
            },
        };
        let negative = mantissa.len() > 0 && mantissa[0] == '-';
        let start: usize = if negative {
            1
        } else {
            0
        };
        let mut body: Vec<char> = Vec::new();
        append(&mut body, &mantissa, start, mantissa.len());
        assert(body@ =~= unsigned_part(mantissa@));
        if !decimal(&body) {
            return None;
        }
        let moved = shift(&body, by);
        let mut plain: Vec<char> = Vec::new();
        if negative {
            plain.push('-');
        }
        append(&mut plain, &moved, 0, moved.len());
        assert(plain@ =~= if negative {
            seq!['-'] + moved@
        } else {
            moved@
        });
        let plain_text = text_of(&plain);
        Scalar::parse(plain_text.as_str())
    }
}

/// A number written as decimal text has no exponent mark, and is read back as the same
/// number by a reader that takes exponents.
pub proof fn law_plain_text_reads_back(v: int)
    requires
        i64::MIN <= v <= i64::MAX,
    ensures
        without_exponent(decimal_text(v)) == Some(decimal_text(v)),
        number_value(decimal_text(v)) == Some(v),
{
    let s = decimal_text(v);
    let unit = crate::scalar::UNIT as int;
    let m = crate::scalar::mag(v);
    let whole = crate::text::natural_digits((m / unit) as nat);
    let frac = crate::text::fixed_digits((m % unit) as nat, 6);
    law_natural_digits((m / unit) as nat);
    law_fixed_digits((m % unit) as nat);
    law_decimal_text_reads_back(v);
    let body = whole + seq!['.'] + frac;
    assert(s =~= if v < 0 {
        seq!['-'] + body
    } else {
        body
    });
    assert forall|i: int| 0 <= i < body.len() implies !is_mark(#[trigger] body[i]) by {
        if i < whole.len() {
            assert(body[i] == whole[i]);
            assert(is_digit(whole[i]));
        } else if i > whole.len() {
            assert(body[i] == frac[i - whole.len() - 1]);
            assert(is_digit(frac[i - whole.len() - 1]));
        }
    }
    assert forall|i: int| 0 <= i < s.len() implies !is_mark(#[trigger] s[i]) by {
        if v < 0 {
            if i > 0 {
                assert(s[i] == body[i - 1]);
            }
        } else {
            assert(s[i] == body[i]);
        }
    }
    lemma_first_mark(s, s.len() as int);
}

} // verus!
