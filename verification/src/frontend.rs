//! Colours, statuses and palettes.

use crate::text::{chars_of, text_of};
use vstd::prelude::*;

verus! {

/// How well a shown value is doing.
#[derive(Clone, Copy, Debug, PartialEq, Eq, Structural)]
pub enum Status {
    /// Written `Ok` in a screen description.
    Normal,
    Warning,
    Error,
}

/// A colour: red, green, blue and opacity, each from 0 to 255.
#[derive(Clone, Copy, Debug, PartialEq, Eq, Structural)]
pub struct Color {
    pub r: u8,
    pub g: u8,
    pub b: u8,
    pub a: u8,
}

impl Color {
    /// The colour with the given parts.
    pub fn from_rgba(r: u8, g: u8, b: u8, a: u8) -> (c: Color)
        ensures
            c == (Color { r, g, b, a }),
    {
        Color { r, g, b, a }
    }

    /// The opaque colour with the given parts.
    pub fn from_rgb(r: u8, g: u8, b: u8) -> (c: Color)
        ensures
            c == (Color { r, g, b, a: 255 }),
    {
        Color { r, g, b, a: 255 }
    }
}

/// A colour that is written as text: eight hexadecimal digits, two each for opacity, red,
/// green and blue.
#[derive(Clone, Copy, Debug, PartialEq, Eq, Structural)]
pub struct SerializableColor {
    pub color: Color,
}

/// The value of a hexadecimal digit, in either case.
pub open spec fn hex_digit_value(c: char) -> Option<nat> {
    if '0' <= c && c <= '9' {
        Some((c as u32 - 48) as nat)
    } else if 'a' <= c && c <= 'f' {
        Some((c as u32 - 87) as nat)
    } else if 'A' <= c && c <= 'F' {
        Some((c as u32 - 55) as nat)
    } else {
        None
    }
}

/// Whether all characters are hexadecimal digits.
pub open spec fn all_hex(s: Seq<char>) -> bool {
    forall|i: int| 0 <= i < s.len() ==> hex_digit_value(#[trigger] s[i]) is Some
}

/// The number that a sequence of hexadecimal digits stands for.
pub open spec fn hex_value(s: Seq<char>) -> nat
    decreases s.len(),
{
    if s.len() == 0 {
        0
    } else {
        hex_value(s.drop_last()) * 16 + hex_digit_value(s.last()).unwrap()
    }
}

/// The text without its plus sign, where it has one.
pub open spec fn after_plus(s: Seq<char>) -> Seq<char> {
    if s.len() > 0 && s[0] == '+' {
        s.skip(1)
    } else {
        s
    }
}

/// The number that a hexadecimal text stands for: an optional plus sign and at least one
/// digit. Nothing for any other text, and nothing for a number that needs more than 32 bits.
pub open spec fn hex_number(s: Seq<char>) -> Option<u32> {
    let body = after_plus(s);
    if body.len() > 0 && all_hex(body) && hex_value(body) <= u32::MAX {
        Some(hex_value(body) as u32)
    } else {
        None
    }
}

/// The colour that a number holds: opacity in its highest byte, then red, green and blue.
pub open spec fn color_of_number(n: u32) -> Color {
    Color {
        r: ((n as int / 0x1_0000) % 256) as u8,
        g: ((n as int / 0x100) % 256) as u8,
        b: (n as int % 256) as u8,
        a: (n as int / 0x100_0000) as u8,
    }
}

/// The lower-case hexadecimal digit of a value below sixteen.
pub open spec fn hex_digit_char(d: nat) -> char {
    if d < 10 {
        ((d + 48) as u8) as char
    } else {
        ((d + 87) as u8) as char
    }
}

/// A byte as two lower-case hexadecimal digits.
pub open spec fn byte_text(b: u8) -> Seq<char> {
    seq![hex_digit_char((b / 16) as nat), hex_digit_char((b % 16) as nat)]
}

/// A colour as text: opacity, red, green and blue, two hexadecimal digits each.
pub open spec fn color_text(c: Color) -> Seq<char> {
    byte_text(c.a) + byte_text(c.r) + byte_text(c.g) + byte_text(c.b)
}

/// The value of the first digits of a sequence is not above the value of all of it.
pub proof fn lemma_hex_value_grows(s: Seq<char>, i: int)
    requires
        0 <= i <= s.len(),
        all_hex(s),
    ensures
        hex_value(s.take(i)) <= hex_value(s),
    decreases s.len() - i,
{
    if i < s.len() {
        lemma_hex_value_grows(s, i + 1);
        assert(s.take(i + 1).drop_last() =~= s.take(i));
    } else {
        assert(s.take(i) =~= s);
    }
}

/// The digit of a value below sixteen is a hexadecimal digit of that value, and no sign.
proof fn lemma_hex_digit(d: nat)
    requires
        d < 16,
    ensures
        hex_digit_value(hex_digit_char(d)) == Some(d),
        hex_digit_char(d) != '+',
{
}

/// Hexadecimal digits with the two digits of a byte after them stand for 256 times as much,
/// and the byte.
proof fn lemma_hex_append_byte(prefix: Seq<char>, b: u8)
    requires
        all_hex(prefix),
    ensures
        all_hex(prefix + byte_text(b)),
        hex_value(prefix + byte_text(b)) == hex_value(prefix) * 256 + b,
        (prefix + byte_text(b)).len() == prefix.len() + 2,
{
    let high = hex_digit_char((b / 16) as nat);
    let low = hex_digit_char((b % 16) as nat);
    lemma_hex_digit((b / 16) as nat);
    lemma_hex_digit((b % 16) as nat);
    let t = prefix + byte_text(b);
    assert(t =~= prefix.push(high).push(low));
    assert(t.drop_last() =~= prefix.push(high));
    assert(t.drop_last().drop_last() =~= prefix);
    assert(hex_value(t.drop_last()) == hex_value(prefix) * 16 + b / 16);
    assert(hex_value(t) == hex_value(t.drop_last()) * 16 + b % 16);
    assert forall|i: int| 0 <= i < t.len() implies hex_digit_value(#[trigger] t[i]) is Some by {
        if i < prefix.len() {
            assert(t[i] == prefix[i]);
        }
    }
}

/// The text of a colour is eight hexadecimal digits that stand for its four bytes.
proof fn lemma_color_text(c: Color)
    ensures
        all_hex(color_text(c)),
        color_text(c).len() == 8,
        color_text(c)[0] != '+',
        hex_value(color_text(c)) == c.a * 0x100_0000 + c.r * 0x1_0000 + c.g * 0x100 + c.b,
{
    let none = Seq::<char>::empty();
    let s1 = none + byte_text(c.a);
    let s2 = s1 + byte_text(c.r);
    let s3 = s2 + byte_text(c.g);
    let s4 = s3 + byte_text(c.b);
    lemma_hex_append_byte(none, c.a);
    lemma_hex_append_byte(s1, c.r);
    lemma_hex_append_byte(s2, c.g);
    lemma_hex_append_byte(s3, c.b);
    assert(s1 =~= byte_text(c.a));
    lemma_hex_digit((c.a / 16) as nat);
    assert(s1[0] == hex_digit_char((c.a / 16) as nat));
    assert(s4[0] == s1[0]);
}

/// The number made of four bytes holds them as the parts of a colour.
proof fn lemma_color_of_bytes(c: Color, n: u32)
    requires
        n == c.a * 0x100_0000 + c.r * 0x1_0000 + c.g * 0x100 + c.b,
    ensures
        color_of_number(n) == c,
{
    let (a, r, g, b) = (c.a as int, c.r as int, c.g as int, c.b as int);
    vstd::arithmetic::div_mod::lemma_fundamental_div_mod_converse(
        n as int,
        0x100_0000,
        a,
        r * 0x1_0000 + g * 0x100 + b,
    );
    vstd::arithmetic::div_mod::lemma_fundamental_div_mod_converse(n as int, 0x1_0000, a * 0x100 + r, g * 0x100 + b);
    vstd::arithmetic::div_mod::lemma_fundamental_div_mod_converse(a * 0x100 + r, 256, a, r);
    vstd::arithmetic::div_mod::lemma_fundamental_div_mod_converse(
        n as int,
        0x100,
        a * 0x1_0000 + r * 0x100 + g,
        b,
    );
    vstd::arithmetic::div_mod::lemma_fundamental_div_mod_converse(a * 0x1_0000 + r * 0x100 + g, 256, a * 0x100 + r, g);
    vstd::arithmetic::div_mod::lemma_fundamental_div_mod_converse(n as int, 256, a * 0x1_0000 + r * 0x100 + g, b);
}

/// A colour written as text is read back as the same colour.
pub proof fn law_color_text_reads_back(c: Color)
    ensures
        hex_number(color_text(c)) matches Some(n) && color_of_number(n) == c,
{
    lemma_color_text(c);
    let n = hex_value(color_text(c));
    lemma_color_of_bytes(c, n as u32);
}

/// The value of a character, where it is a hexadecimal digit.
fn value_of_hex_digit(c: char) -> (r: Option<u8>)
    ensures
        r is Some == hex_digit_value(c) is Some,
        r matches Some(d) ==> hex_digit_value(c) == Some(d as nat) && d < 16,
{
    if c >= '0' && c <= '9' {
        Some((c as u32 - 48) as u8)
    } else if c >= 'a' && c <= 'f' {
        Some((c as u32 - 87) as u8)
    } else if c >= 'A' && c <= 'F' {
        Some((c as u32 - 55) as u8)
    } else {
        None
    }
}

/// The number that a hexadecimal text stands for.
pub fn parse_hex(text: &str) -> (r: Option<u32>)
    ensures
        r == hex_number(text@),
{
    let chars = chars_of(text);
    let start: usize = if chars.len() > 0 && chars[0] == '+' {
        1
    } else {
        0
    };
    let ghost body = after_plus(text@);
    assert(body =~= chars@.skip(start as int));
    if start == chars.len() {
        return None;
    }
    let mut value: u64 = 0;
    let mut i: usize = start;
    while i < chars.len()
        invariant
            start <= i <= chars.len(),
            body == chars@.skip(start as int),
            body == after_plus(text@),
            all_hex(body.take(i - start)),
            value == hex_value(body.take(i - start)),
            value <= u32::MAX,
        decreases chars.len() - i,
    {
        proof {
            assert(body.take(i + 1 - start).drop_last() =~= body.take(i - start));
            assert(body[i - start] == chars@[i as int]);
        }
        match value_of_hex_digit(chars[i]) {
            None => {
                return None;
            },
            Some(d) => {
                let next: u64 = value * 16 + d as u64;
                if next > u32::MAX as u64 {
                    proof {
                        if all_hex(body) {
                            lemma_hex_value_grows(body, i + 1 - start);
                        }
                    }
                    return None;
                }
                value = next;
            },
        }
        i = i + 1;
    }
    assert(body.take(body.len() as int) =~= body);
    Some(value as u32)
}

/// The lower-case hexadecimal digit of a value below sixteen.
fn hex_digit_of(d: u8) -> (r: char)
    requires
        d < 16,
    ensures
        r == hex_digit_char(d as nat),
{
    if d < 10 {
        (48u8 + d) as char
    } else {
        (87u8 + d) as char
    }
}

/// Appends a byte as two hexadecimal digits.
fn push_byte(out: &mut Vec<char>, b: u8)
    ensures
        final(out)@ == old(out)@ + byte_text(b),
{
    out.push(hex_digit_of(b / 16));
    out.push(hex_digit_of(b % 16));
    assert(out@ =~= old(out)@ + byte_text(b));
}

impl SerializableColor {
    /// The colour that a text of hexadecimal digits stands for: the number they make holds
    /// opacity, red, green and blue from its highest byte down.
    pub fn parse(text: &str) -> (r: Option<SerializableColor>)
        ensures
            r == match hex_number(text@) {
                Some(n) => Some(SerializableColor { color: color_of_number(n) }),
                None => None,
            },
    {
        match parse_hex(text) {
            Some(color) => {
                let r = ((color >> 16) & 0xff) as u8;
                let g = ((color >> 8) & 0xff) as u8;
                let b = ((color >> 0) & 0xff) as u8;
                let a = ((color >> 24) & 0xff) as u8;
                assert(((color >> 16) & 0xff) == (color / 0x1_0000) % 256 && ((color >> 8) & 0xff) == (color
                    / 0x100) % 256 && ((color >> 0) & 0xff) == color % 256 && ((color >> 24) & 0xff) == color
                    / 0x100_0000) by (bit_vector);
                Some(SerializableColor { color: Color::from_rgba(r, g, b, a) })
            },
            None => None,
        }
    }

    /// The colour as text: opacity, red, green and blue, two hexadecimal digits each.
    pub fn to_text(&self) -> (r: String)
        ensures
            r@ == color_text(self.color),
    {
        let mut out: Vec<char> = Vec::new();
        push_byte(&mut out, self.color.a);
        push_byte(&mut out, self.color.r);
        push_byte(&mut out, self.color.g);
        push_byte(&mut out, self.color.b);
        assert(out@ =~= color_text(self.color));
        text_of(&out)
    }
}

/// The colours in which statuses are shown.
pub trait Palette {
    /// The colour of a range of the given status.
    spec fn color_of(&self, s: Status) -> Color;

    /// The colour of text that shows a value of the given status.
    spec fn font_color_of(&self, s: Status) -> Color;

    /// The colour behind a value of the given status.
    spec fn bg_color_of(&self, s: Status) -> Color;

    /// The colour of a range of the given status.
    fn status_to_color(&self, s: Status) -> (c: Color)
        ensures
            c == self.color_of(s),
    ;

    /// The colour of text that shows a value of the given status.
    fn status_to_color_font(&self, s: Status) -> (c: Color)
        ensures
            c == self.font_color_of(s),
    ;

    /// The colour behind a value of the given status.
    fn status_to_color_bg(&self, s: Status) -> (c: Color)
        ensures
            c == self.bg_color_of(s),
    ;
}

/// A palette for dark screens.
#[derive(Clone, Copy, Debug, PartialEq, Eq, Structural)]
pub struct DarkPalette {}

/// The colour of a range in the dark palette.
pub open spec fn dark_color(s: Status) -> Color {
    match s {
        Status::Normal => Color { r: 0, g: 160, b: 0, a: 255 },
        Status::Warning => Color { r: 250, g: 120, b: 0, a: 255 },
        Status::Error => Color { r: 200, g: 0, b: 0, a: 255 },
    }
}

/// The colour of text in the dark palette.
pub open spec fn dark_color_font(s: Status) -> Color {
    match s {
        Status::Normal => Color { r: 255, g: 255, b: 255, a: 255 },
        Status::Warning => Color { r: 240, g: 180, b: 0, a: 255 },
        Status::Error => Color { r: 255, g: 50, b: 50, a: 255 },
    }
}

/// The colour of a background in the dark palette.
pub open spec fn dark_color_bg(s: Status) -> Color {
    match s {
        Status::Normal => Color { r: 30, g: 30, b: 40, a: 255 },
        Status::Warning => Color { r: 30, g: 30, b: 40, a: 255 },
        Status::Error => Color { r: 100, g: 0, b: 0, a: 255 },
    }
}

impl Palette for DarkPalette {
    open spec fn color_of(&self, s: Status) -> Color {
        dark_color(s)
    }

    open spec fn font_color_of(&self, s: Status) -> Color {
        dark_color_font(s)
    }

    open spec fn bg_color_of(&self, s: Status) -> Color {
        dark_color_bg(s)
    }

    fn status_to_color(&self, s: Status) -> (c: Color)
        ensures
            c == dark_color(s),
    {
        match s {
            Status::Normal => Color::from_rgba(0, 160, 0, 255),
            Status::Warning => Color::from_rgba(250, 120, 0, 255),
            Status::Error => Color::from_rgba(200, 0, 0, 255),
        }
    }

    fn status_to_color_font(&self, s: Status) -> (c: Color)
        ensures
            c == dark_color_font(s),
    {
        match s {
            Status::Normal => Color::from_rgba(255, 255, 255, 255),
            Status::Warning => Color::from_rgba(240, 180, 0, 255),
            Status::Error => Color::from_rgba(255, 50, 50, 255),
        }
    }

    fn status_to_color_bg(&self, s: Status) -> (c: Color)
        ensures
            c == dark_color_bg(s),
    {
        match s {
            Status::Normal => Color::from_rgba(30, 30, 40, 255),
            Status::Warning => Color::from_rgba(30, 30, 40, 255),
            Status::Error => Color::from_rgba(200 / 2, 0, 0, 255),
        }
    }
}

} // verus!
