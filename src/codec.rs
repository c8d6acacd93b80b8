//! The cell codec: colors packed into an attribute byte, and a character with
//! its attribute packed into the two-byte cell the display reads.

use vstd::prelude::*;

verus! {

/// The byte drawn in place of anything that is not printable ASCII.
pub const SUBSTITUTE_GLYPH: u8 = 0xfe;

/// One of the sixteen colors of the text mode, in the order of their 4-bit codes.
#[derive(Debug, Clone, Copy, PartialEq, Eq, Structural)]
pub enum Color {
    Black,
    Blue,
    Green,
    Cyan,
    Red,
    Magenta,
    Brown,
    LightGray,
    DarkGray,
    LightBlue,
    LightGreen,
    LightCyan,
    LightRed,
    Pink,
    Yellow,
    White,
}

impl Color {
    /// The 4-bit hardware code of a color.
    pub open spec fn spec_code(self) -> u8 {
        match self {
            Color::Black => 0,
            Color::Blue => 1,
            Color::Green => 2,
            Color::Cyan => 3,
            Color::Red => 4,
            Color::Magenta => 5,
            Color::Brown => 6,
            Color::LightGray => 7,
            Color::DarkGray => 8,
            Color::LightBlue => 9,
            Color::LightGreen => 10,
            Color::LightCyan => 11,
            Color::LightRed => 12,
            Color::Pink => 13,
            Color::Yellow => 14,
            Color::White => 15,
        }
    }

    /// The color whose code is the low nibble of `n`.
    pub open spec fn spec_from_nibble(n: u8) -> Color {
        let k = n % 16;
        if k == 0 { Color::Black }
        else if k == 1 { Color::Blue }
        else if k == 2 { Color::Green }
        else if k == 3 { Color::Cyan }
        else if k == 4 { Color::Red }
        else if k == 5 { Color::Magenta }
        else if k == 6 { Color::Brown }
        else if k == 7 { Color::LightGray }
        else if k == 8 { Color::DarkGray }
        else if k == 9 { Color::LightBlue }
        else if k == 10 { Color::LightGreen }
        else if k == 11 { Color::LightCyan }
        else if k == 12 { Color::LightRed }
        else if k == 13 { Color::Pink }
        else if k == 14 { Color::Yellow }
        else { Color::White }
    }

    /// The 4-bit hardware code of this color.
    #[verifier::when_used_as_spec(spec_code)]
    pub fn code(self) -> (r: u8)
        ensures
            r == self.spec_code(),
            r < 16,
    {
        match self {
            Color::Black => 0,
            Color::Blue => 1,
            Color::Green => 2,
            Color::Cyan => 3,
            Color::Red => 4,
            Color::Magenta => 5,
            Color::Brown => 6,
            Color::LightGray => 7,
            Color::DarkGray => 8,
            Color::LightBlue => 9,
            Color::LightGreen => 10,
            Color::LightCyan => 11,
            Color::LightRed => 12,
            Color::Pink => 13,
            Color::Yellow => 14,
            Color::White => 15,
        }
    }

    /// The color whose code is the low nibble of `n`.
    pub fn from_nibble(n: u8) -> (r: Color)
        ensures
            r == Color::spec_from_nibble(n),
            r.spec_code() == n % 16,
    {
        let k: u8 = n % 16;
        if k == 0 { Color::Black }
        else if k == 1 { Color::Blue }
        else if k == 2 { Color::Green }
        else if k == 3 { Color::Cyan }
        else if k == 4 { Color::Red }
        else if k == 5 { Color::Magenta }
        else if k == 6 { Color::Brown }
        else if k == 7 { Color::LightGray }
        else if k == 8 { Color::DarkGray }
        else if k == 9 { Color::LightBlue }
        else if k == 10 { Color::LightGreen }
        else if k == 11 { Color::LightCyan }
        else if k == 12 { Color::LightRed }
        else if k == 13 { Color::Pink }
        else if k == 14 { Color::Yellow }
        else { Color::White }
    }
}

/// Decoding a color's code gives the color back.
pub proof fn lemma_color_code_round_trip(c: Color)
    ensures
        Color::spec_from_nibble(c.spec_code()) == c,
        c.spec_code() < 16,
{
}

/// The attribute byte: background code in the high nibble, foreground code in the low one.
#[derive(Debug, Clone, Copy, PartialEq, Eq, Structural)]
pub struct ColorCode(pub u8);

/// The attribute that a foreground and a background color pack into.
pub open spec fn attribute_of(foreground: Color, background: Color) -> u8 {
    (background.spec_code() * 16 + foreground.spec_code()) as u8
}

impl ColorCode {
    /// Packs `foreground` into bits 0-3 and `background` into bits 4-7.
    pub fn new(foreground: Color, background: Color) -> (r: ColorCode)
        ensures
            r.0 == attribute_of(foreground, background),
            r.0 as int == background.spec_code() * 16 + foreground.spec_code(),
    {
        let f = foreground.code();
        let b = background.code();
        let r = (b << 4) | f;
        assert(((b << 4) | f) == b * 16 + f) by (bit_vector)
            requires
                f < 16u8,
                b < 16u8,
        ;
        ColorCode(r)
    }

    /// The foreground color: the low nibble.
    pub fn foreground(self) -> (r: Color)
        ensures
            r == Color::spec_from_nibble(self.0),
    {
        let x = self.0;
        assert((x & 0x0f) % 16 == x % 16) by (bit_vector);
        Color::from_nibble(x & 0x0f)
    }

    /// The background color: the high nibble.
    pub fn background(self) -> (r: Color)
        ensures
            r == Color::spec_from_nibble(self.0 / 16),
    {
        let x = self.0;
        assert((x >> 4) == x / 16) by (bit_vector);
        Color::from_nibble(x >> 4)
    }
}

/// Decoding the two nibbles of a packed attribute gives back the pair it was
/// packed from, so distinct pairs never pack into the same byte.
pub proof fn lemma_attribute_decodes(foreground: Color, background: Color)
    ensures
        Color::spec_from_nibble(attribute_of(foreground, background)) == foreground,
        Color::spec_from_nibble((attribute_of(foreground, background) / 16) as u8) == background,
{
    let f = foreground.spec_code();
    let b = background.spec_code();
    let a = attribute_of(foreground, background);
    assert(a == b * 16 + f);
    assert(a % 16 == f);
    assert(a / 16 == b);
}

/// Packing is injective: two pairs that pack into the same attribute are the same pair.
pub proof fn lemma_attribute_injective(f1: Color, b1: Color, f2: Color, b2: Color)
    requires
        attribute_of(f1, b1) == attribute_of(f2, b2),
    ensures
        f1 == f2,
        b1 == b2,
{
    lemma_attribute_decodes(f1, b1);
    lemma_attribute_decodes(f2, b2);
}

/// Whether a byte is drawn as itself: printable ASCII or the newline.
pub open spec fn is_representable(byte: u8) -> bool {
    (0x20 <= byte && byte <= 0x7e) || byte == 0x0a
}

/// The byte that a cell shows for an input byte.
pub open spec fn spec_sanitize(byte: u8) -> u8 {
    if is_representable(byte) { byte } else { SUBSTITUTE_GLYPH }
}

/// Printable ASCII and the newline pass unchanged; every other byte becomes
/// the substitute glyph.
#[verifier::when_used_as_spec(spec_sanitize)]
pub fn sanitize_byte(byte: u8) -> (r: u8)
    ensures
        r == spec_sanitize(byte),
        0x20 <= byte <= 0x7e ==> r == byte,
        byte == 0x0a ==> r == byte,
        !(0x20 <= byte <= 0x7e) && byte != 0x0a ==> r == SUBSTITUTE_GLYPH,
{
    if (0x20 <= byte && byte <= 0x7e) || byte == 0x0a {
        byte
    } else {
        SUBSTITUTE_GLYPH
    }
}

/// One screen position: a character byte and the attribute it is drawn with.
#[derive(Debug, Clone, Copy, PartialEq, Eq, Structural)]
pub struct ScreenChar {
    pub ascii_character: u8,
    pub color_code: ColorCode,
}

/// The two-byte cell for a character and an attribute: the character in the
/// low byte, the attribute in the high byte (the display's little-endian layout).
pub open spec fn cell_of(ch: u8, attr: u8) -> u16 {
    (attr as int * 256 + ch as int) as u16
}

impl ScreenChar {
    /// The two-byte cell that the display reads for this character.
    pub open spec fn spec_to_cell(self) -> u16 {
        cell_of(self.ascii_character, self.color_code.0)
    }

    /// The character and attribute that a two-byte cell holds.
    pub open spec fn spec_from_cell(cell: u16) -> ScreenChar {
        ScreenChar { ascii_character: (cell % 256) as u8, color_code: ColorCode((cell / 256) as u8) }
    }

    /// Packs this character into the display's two-byte cell format.
    #[verifier::when_used_as_spec(spec_to_cell)]
    pub fn to_cell(self) -> (r: u16)
        ensures
            r == self.spec_to_cell(),
    {
        let c = self.ascii_character as u16;
        let a = self.color_code.0 as u16;
        assert(a < 256 && c < 256);
        assert(((a << 8) | c) == a * 256 + c) by (bit_vector)
            requires
                a < 256u16,
                c < 256u16,
        ;
        (a << 8) | c
    }

    /// Unpacks a two-byte cell into its character and attribute.
    #[verifier::when_used_as_spec(spec_from_cell)]
    pub fn from_cell(cell: u16) -> (r: ScreenChar)
        ensures
            r == ScreenChar::spec_from_cell(cell),
    {
        assert((cell & 0xff) == cell % 256) by (bit_vector);
        assert((cell >> 8) == cell / 256) by (bit_vector);
        ScreenChar { ascii_character: (cell & 0xff) as u8, color_code: ColorCode((cell >> 8) as u8) }
    }
}

/// Unpacking a packed cell gives back the character and attribute.
pub proof fn lemma_cell_round_trip(sc: ScreenChar)
    ensures
        ScreenChar::spec_from_cell(sc.spec_to_cell()) == sc,
{
}

} // verus!
