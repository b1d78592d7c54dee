use vstd::prelude::*;
use vstd::string::{is_ascii_spec_bytes, StringExecFns, StringSliceAdditionalSpecFns};

verus! {

/// A line colour of the annotation layer, written `#rrggbb` in lower-case hex.
#[derive(Clone, Copy, Debug, Default, PartialEq, Eq, Structural)]
pub struct Color {
    pub r: u8,
    pub g: u8,
    pub b: u8,
}

/// The text is not `#` followed by six hex digits.
#[derive(Clone, Copy, Debug, PartialEq, Eq, Structural)]
pub struct ColorParseError;

/// The value of hex digit `c`, of either case, or `None` for any other character.
pub open spec fn hex_value(c: char) -> Option<u8> {
    if '0' <= c && c <= '9' {
        Some((c as int - '0' as int) as u8)
    } else if 'a' <= c && c <= 'f' {
        Some((c as int - 'a' as int + 10) as u8)
    } else if 'A' <= c && c <= 'F' {
        Some((c as int - 'A' as int + 10) as u8)
    } else {
        None
    }
}

/// The lower-case hex digit of `d`, for `d < 16`.
pub open spec fn hex_char(d: u8) -> char {
    if d < 10 {
        (d + '0' as u8) as char
    } else {
        (d - 10 + 'a' as u8) as char
    }
}

/// The byte written by the two hex digits `hi` and `lo`.
pub open spec fn byte_of(hi: char, lo: char) -> u8 {
    (16 * hex_value(hi)->Some_0 + hex_value(lo)->Some_0) as u8
}

/// The colour that `t` writes, if it is `#` and six hex digits.
pub open spec fn parse_color(t: Seq<char>) -> Option<Color> {
    if t.len() == 7 && t[0] == '#' && forall|i: int| 1 <= i < 7 ==> (#[trigger] hex_value(t[i])) is Some {
        Some(Color { r: byte_of(t[1], t[2]), g: byte_of(t[3], t[4]), b: byte_of(t[5], t[6]) })
    } else {
        None
    }
}

/// `#rrggbb` for the colour, in lower-case hex.
pub open spec fn color_text(c: Color) -> Seq<char> {
    seq![
        '#',
        hex_char(c.r / 16),
        hex_char(c.r % 16),
        hex_char(c.g / 16),
        hex_char(c.g % 16),
        hex_char(c.b / 16),
        hex_char(c.b % 16),
    ]
}

/// The value of the ASCII hex digit `b`, of either case.
fn hex_digit_value(b: u8) -> (r: Option<u8>)
    ensures
        r == hex_value(b as char),
{
    if b >= 48 && b <= 57 {
        Some(b - 48)
    } else if b >= 97 && b <= 102 {
        Some(b - 87)
    } else if b >= 65 && b <= 70 {
        Some(b - 55)
    } else {
        None
    }
}

/// The lower-case hex digit of `d`.
fn hex_digit_text(d: u8) -> (r: &'static str)
    requires
        d < 16,
    ensures
        r@ == seq![hex_char(d)],
{
    proof {
        reveal_strlit("0");
        reveal_strlit("1");
        reveal_strlit("2");
        reveal_strlit("3");
        reveal_strlit("4");
        reveal_strlit("5");
        reveal_strlit("6");
        reveal_strlit("7");
        reveal_strlit("8");
        reveal_strlit("9");
        reveal_strlit("a");
        reveal_strlit("b");
        reveal_strlit("c");
        reveal_strlit("d");
        reveal_strlit("e");
        reveal_strlit("f");
    }
    match d {
        0 => "0",
        1 => "1",
        2 => "2",
        3 => "3",
        4 => "4",
        5 => "5",
        6 => "6",
        7 => "7",
        8 => "8",
        9 => "9",
        10 => "a",
        11 => "b",
        12 => "c",
        13 => "d",
        14 => "e",
        _ => "f",
    }
}

impl Color {
    pub fn new(r: u8, g: u8, b: u8) -> (c: Self)
        ensures
            c == (Color { r, g, b }),
    {
        Color { r, g, b }
    }

    /// `#rrggbb`, in lower-case hex.
    pub fn to_hex_string(&self) -> (s: String)
        ensures
            s@ == color_text(*self),
    {
        proof {
            reveal_strlit("#");
        }
        let mut s = String::from_str("#");
        s.append(hex_digit_text(self.r / 16));
        s.append(hex_digit_text(self.r % 16));
        s.append(hex_digit_text(self.g / 16));
        s.append(hex_digit_text(self.g % 16));
        s.append(hex_digit_text(self.b / 16));
        s.append(hex_digit_text(self.b % 16));
        proof {
            assert(s@ =~= color_text(*self));
        }
        s
    }

    /// Reads `#` followed by six hex digits of either case.
    pub fn from_str(s: &str) -> (r: Result<Color, ColorParseError>)
        ensures
            r is Ok <==> parse_color(s@) is Some,
            r matches Ok(c) ==> parse_color(s@) == Some(c),
    {
        if !s.is_ascii() {
            proof {
                if parse_color(s@) is Some {
                    assert(vstd::string::is_ascii(s)) by {
                        assert forall|i: int| 0 <= i < s@.len() implies '\0' <= #[trigger] s@[i]
                            <= '\u{7f}' by {
                            if i > 0 {
                                assert(hex_value(s@[i]) is Some);
                            }
                        }
                    }
                }
            }
            return Err(ColorParseError);
        }
        proof {
            is_ascii_spec_bytes(s);
        }
        let bytes = s.as_bytes();
        if bytes.len() != 7 || bytes[0] != 35 {
            return Err(ColorParseError);
        }
        let mut digits: [u8; 6] = [0; 6];
        let mut i: usize = 1;
        while i < 7
            invariant
                1 <= i <= 7,
                bytes@.len() == 7,
                bytes@ == s.spec_bytes(),
                s.spec_bytes() == Seq::new(s@.len(), |k: int| s@[k] as u8),
                vstd::string::is_ascii(s),
                forall|k: int| 1 <= k < i ==> hex_value(#[trigger] s@[k]) == Some(digits[k - 1]),
            decreases 7 - i,
        {
            assert(s@[i as int] as u8 as char == s@[i as int]);
            match hex_digit_value(bytes[i]) {
                Some(d) => {
                    digits[i - 1] = d;
                },
                None => {
                    return Err(ColorParseError);
                },
            }
            i = i + 1;
        }
        Ok(
            Color {
                r: digits[0] * 16 + digits[1],
                g: digits[2] * 16 + digits[3],
                b: digits[4] * 16 + digits[5],
            },
        )
    }
}

/// Writing a colour and reading the text back gives the same colour.
pub proof fn lemma_color_text_round_trip(c: Color)
    ensures
        parse_color(color_text(c)) == Some(c),
{
    lemma_hex_digit(c.r / 16);
    lemma_hex_digit(c.r % 16);
    lemma_hex_digit(c.g / 16);
    lemma_hex_digit(c.g % 16);
    lemma_hex_digit(c.b / 16);
    lemma_hex_digit(c.b % 16);
    let t = color_text(c);
    assert forall|i: int| 1 <= i < 7 implies (#[trigger] hex_value(t[i])) is Some by {}
}

/// Reading back the digit written for `d` gives `d`.
proof fn lemma_hex_digit(d: u8)
    requires
        d < 16,
    ensures
        hex_value(hex_char(d)) == Some(d),
{
}

} // verus!
