use vstd::prelude::*;
use vstd::string::*;

verus! {

/// An sRGB colour as three 8-bit channels, the value a `#RRGGBB` string
/// denotes.
#[derive(Clone, Copy, Debug, PartialEq, Eq, Structural)]
pub struct Rgb8 {
    pub r: u8,
    pub g: u8,
    pub b: u8,
}

/// Why a string is not a `#RRGGBB` colour.
#[derive(Clone, Copy, Debug, PartialEq, Eq, Structural)]
pub enum HexError {
    /// The string does not hold exactly seven characters.
    WrongLength,
    /// The first character is not `#`.
    MissingHash,
    /// One of the six channel characters is not a hexadecimal digit.
    InvalidDigit,
}

/// Value of a hexadecimal digit, either case.
pub open spec fn digit_value(c: char) -> Option<nat> {
    if '0' <= c && c <= '9' {
        Some((c as int - '0' as int) as nat)
    } else if 'a' <= c && c <= 'f' {
        Some((c as int - 'a' as int + 10) as nat)
    } else if 'A' <= c && c <= 'F' {
        Some((c as int - 'A' as int + 10) as nat)
    } else {
        None
    }
}

pub open spec fn is_hex_digit(c: char) -> bool {
    digit_value(c) is Some
}

/// The byte written by two hexadecimal digits, high nibble first.
pub open spec fn byte_of(hi: char, lo: char) -> nat {
    16 * digit_value(hi)->0 + digit_value(lo)->0
}

pub open spec fn all_digits(s: Seq<char>) -> bool {
    forall|i: int| 1 <= i < 7 ==> #[trigger] is_hex_digit(s[i])
}

/// The `#RRGGBB` grammar: a `#` followed by six hexadecimal digits of
/// either case; the result, or the first rule the text breaks.
pub open spec fn spec_parse_hex(s: Seq<char>) -> Result<Rgb8, HexError> {
    if s.len() != 7 {
        Err(HexError::WrongLength)
    } else if s[0] != '#' {
        Err(HexError::MissingHash)
    } else if !all_digits(s) {
        Err(HexError::InvalidDigit)
    } else {
        Ok(
            Rgb8 {
                r: byte_of(s[1], s[2]) as u8,
                g: byte_of(s[3], s[4]) as u8,
                b: byte_of(s[5], s[6]) as u8,
            },
        )
    }
}

/// Upper-case hexadecimal digit for a nibble.
pub open spec fn digit_char(d: nat) -> char {
    if d < 10 {
        ('0' as int + d) as char
    } else {
        ('A' as int + d - 10) as char
    }
}

/// The canonical text of a colour: `#` and six upper-case digits.
pub open spec fn spec_format_hex(c: Rgb8) -> Seq<char> {
    seq![
        '#',
        digit_char(c.r as nat / 16),
        digit_char(c.r as nat % 16),
        digit_char(c.g as nat / 16),
        digit_char(c.g as nat % 16),
        digit_char(c.b as nat / 16),
        digit_char(c.b as nat % 16),
    ]
}

/// ASCII upper-casing of one character.
pub open spec fn upper_char(c: char) -> char {
    if 'a' <= c && c <= 'z' {
        (c as int - 32) as char
    } else {
        c
    }
}

pub open spec fn ascii_upper(s: Seq<char>) -> Seq<char> {
    s.map_values(|c: char| upper_char(c))
}

/// Appends one character to a string.
///
/// Trusted wrapper around `String::push`, which the standard library
/// documents as appending the given `char` to the end of the string.
#[verifier::external_body]
fn push_char(s: &mut String, c: char)
    ensures
        final(s)@ == old(s)@.push(c),
{
    s.push(c);
}

fn digit_of(c: char) -> (d: Option<u8>)
    ensures
        d matches Some(v) ==> digit_value(c) == Some(v as nat) && v < 16,
        d is None <==> digit_value(c) is None,
{
    if '0' <= c && c <= '9' {
        Some((c as u32 - '0' as u32) as u8)
    } else if 'a' <= c && c <= 'f' {
        Some((c as u32 - 'a' as u32 + 10) as u8)
    } else if 'A' <= c && c <= 'F' {
        Some((c as u32 - 'A' as u32 + 10) as u8)
    } else {
        None
    }
}

fn nibble_char(d: u8) -> (c: char)
    requires
        d < 16,
    ensures
        c == digit_char(d as nat),
{
    if d < 10 {
        (48u8 + d) as char
    } else {
        (55u8 + d) as char
    }
}

/// Parses a `#RRGGBB` colour (digits of either case).
pub fn parse_hex(hex: &str) -> (res: Result<Rgb8, HexError>)
    ensures
        res == spec_parse_hex(hex@),
        res is Ok ==> {
            &&& hex@.len() == 7
            &&& hex@[0] == '#'
            &&& res->Ok_0.r == 16 * digit_value(hex@[1])->0 + digit_value(hex@[2])->0
            &&& res->Ok_0.g == 16 * digit_value(hex@[3])->0 + digit_value(hex@[4])->0
            &&& res->Ok_0.b == 16 * digit_value(hex@[5])->0 + digit_value(hex@[6])->0
        },
{
    proof {
        lemma_parse_reads_text_order(hex@);
    }
    let n = hex.unicode_len();
    if n != 7 {
        return Err(HexError::WrongLength);
    }
    if hex.get_char(0) != '#' {
        return Err(HexError::MissingHash);
    }
    let mut vals: [u8; 6] = [0u8; 6];
    let mut i: usize = 1;
    while i < 7
        invariant
            1 <= i <= 7,
            hex@.len() == 7,
            hex@[0] == '#',
            forall|j: int| 1 <= j < i ==> #[trigger] is_hex_digit(hex@[j]),
            forall|j: int|
                0 <= j < i - 1 ==> digit_value(hex@[j + 1]) == Some(#[trigger] vals@[j] as nat),
            forall|j: int| 0 <= j < i - 1 ==> #[trigger] vals@[j] < 16,
        decreases 7 - i,
    {
        match digit_of(hex.get_char(i)) {
            Some(v) => {
                vals[i - 1] = v;
            },
            None => {
                assert(!is_hex_digit(hex@[i as int]));
                assert(!all_digits(hex@));
                return Err(HexError::InvalidDigit);
            },
        }
        i = i + 1;
    }
    assert(all_digits(hex@));
    assert(digit_value(hex@[1]) == Some(vals@[0] as nat));
    assert(digit_value(hex@[2]) == Some(vals@[1] as nat));
    assert(digit_value(hex@[3]) == Some(vals@[2] as nat));
    assert(digit_value(hex@[4]) == Some(vals@[3] as nat));
    assert(digit_value(hex@[5]) == Some(vals@[4] as nat));
    assert(digit_value(hex@[6]) == Some(vals@[5] as nat));
    let r = vals[0] * 16 + vals[1];
    let g = vals[2] * 16 + vals[3];
    let b = vals[4] * 16 + vals[5];
    Ok(Rgb8 { r, g, b })
}

/// Writes a colour as `#RRGGBB` with upper-case digits.
pub fn format_hex(c: Rgb8) -> (s: String)
    ensures
        s@ == spec_format_hex(c),
        s@.len() == 7,
        s@[0] == '#',
        digit_value(s@[1]) == Some(c.r as nat / 16),
        digit_value(s@[2]) == Some(c.r as nat % 16),
        digit_value(s@[3]) == Some(c.g as nat / 16),
        digit_value(s@[4]) == Some(c.g as nat % 16),
        digit_value(s@[5]) == Some(c.b as nat / 16),
        digit_value(s@[6]) == Some(c.b as nat % 16),
        forall|i: int| 1 <= i < 7 ==> !('a' <= #[trigger] s@[i] && s@[i] <= 'z'),
{
    proof {
        lemma_format_writes_channels_in_order(c);
    }
    let mut s = String::new();
    push_char(&mut s, '#');
    push_char(&mut s, nibble_char(c.r / 16));
    push_char(&mut s, nibble_char(c.r % 16));
    push_char(&mut s, nibble_char(c.g / 16));
    push_char(&mut s, nibble_char(c.g % 16));
    push_char(&mut s, nibble_char(c.b / 16));
    push_char(&mut s, nibble_char(c.b % 16));
    assert(s@ =~= spec_format_hex(c));
    s
}

/// Canonical text of a colour given as text: the `#RRGGBB` form with
/// upper-case digits, or the reason the text is not a colour.
pub fn normalize_hex(hex: &str) -> (res: Result<String, HexError>)
    ensures
        match spec_parse_hex(hex@) {
            Ok(_) => res is Ok && res->Ok_0@ == ascii_upper(hex@),
            Err(e) => res == Err::<String, HexError>(e),
        },
{
    match parse_hex(hex) {
        Ok(c) => {
            proof {
                lemma_parse_then_format(hex@);
            }
            Ok(format_hex(c))
        },
        Err(e) => Err(e),
    }
}

proof fn lemma_digit_char(d: nat)
    requires
        d < 16,
    ensures
        digit_value(digit_char(d)) == Some(d),
        upper_char(digit_char(d)) == digit_char(d),
{
}

proof fn lemma_digit_upper(c: char)
    ensures
        digit_value(upper_char(c)) == digit_value(c),
        is_hex_digit(c) ==> digit_char(digit_value(c)->0) == upper_char(c),
{
}

proof fn lemma_byte_split(hi: nat, lo: nat)
    requires
        hi < 16,
        lo < 16,
    ensures
        (16 * hi + lo) / 16 == hi,
        (16 * hi + lo) % 16 == lo,
        16 * hi + lo < 256,
{
}

proof fn lemma_byte_join(x: u8)
    ensures
        16 * (x as nat / 16) + x as nat % 16 == x as nat,
        x as nat / 16 < 16,
{
}

/// Reading back what `format_hex` writes gives the same colour.
pub proof fn lemma_format_then_parse(c: Rgb8)
    ensures
        spec_parse_hex(spec_format_hex(c)) == Ok::<Rgb8, HexError>(c),
{
    let s = spec_format_hex(c);
    lemma_byte_join(c.r);
    lemma_byte_join(c.g);
    lemma_byte_join(c.b);
    lemma_digit_char(c.r as nat / 16);
    lemma_digit_char(c.r as nat % 16);
    lemma_digit_char(c.g as nat / 16);
    lemma_digit_char(c.g as nat % 16);
    lemma_digit_char(c.b as nat / 16);
    lemma_digit_char(c.b as nat % 16);
    assert(all_digits(s));
}

/// An accepted colour text is read in text order: the red channel is the
/// byte written by characters 1 and 2, green by 3 and 4, blue by 5 and 6,
/// each as a high and a low hexadecimal digit.
pub proof fn lemma_parse_reads_text_order(s: Seq<char>)
    ensures
        spec_parse_hex(s) is Ok ==> {
            let c = spec_parse_hex(s)->Ok_0;
            &&& s.len() == 7
            &&& s[0] == '#'
            &&& c.r == 16 * digit_value(s[1])->0 + digit_value(s[2])->0
            &&& c.g == 16 * digit_value(s[3])->0 + digit_value(s[4])->0
            &&& c.b == 16 * digit_value(s[5])->0 + digit_value(s[6])->0
        },
{
    if spec_parse_hex(s) is Ok {
        assert(is_hex_digit(s[1]) && is_hex_digit(s[2]) && is_hex_digit(s[3]));
        assert(is_hex_digit(s[4]) && is_hex_digit(s[5]) && is_hex_digit(s[6]));
        lemma_byte_split(digit_value(s[1])->0, digit_value(s[2])->0);
        lemma_byte_split(digit_value(s[3])->0, digit_value(s[4])->0);
        lemma_byte_split(digit_value(s[5])->0, digit_value(s[6])->0);
    }
}

/// The text of a colour is `#` and then the red, green and blue channels in
/// that order, each as a high and a low hexadecimal digit, none lower-case.
pub proof fn lemma_format_writes_channels_in_order(c: Rgb8)
    ensures
        ({
            let s = spec_format_hex(c);
            &&& s.len() == 7
            &&& s[0] == '#'
            &&& digit_value(s[1]) == Some(c.r as nat / 16)
            &&& digit_value(s[2]) == Some(c.r as nat % 16)
            &&& digit_value(s[3]) == Some(c.g as nat / 16)
            &&& digit_value(s[4]) == Some(c.g as nat % 16)
            &&& digit_value(s[5]) == Some(c.b as nat / 16)
            &&& digit_value(s[6]) == Some(c.b as nat % 16)
            &&& forall|i: int| 1 <= i < 7 ==> !('a' <= #[trigger] s[i] && s[i] <= 'z')
        }),
{
    let s = spec_format_hex(c);
    lemma_byte_join(c.r);
    lemma_byte_join(c.g);
    lemma_byte_join(c.b);
    lemma_digit_char(c.r as nat / 16);
    lemma_digit_char(c.r as nat % 16);
    lemma_digit_char(c.g as nat / 16);
    lemma_digit_char(c.g as nat % 16);
    lemma_digit_char(c.b as nat / 16);
    lemma_digit_char(c.b as nat % 16);
    assert forall|i: int| 1 <= i < 7 implies !('a' <= #[trigger] s[i] && s[i] <= 'z') by {
        assert(upper_char(s[i]) == s[i]);
    }
}

/// Every accepted colour text reads back, through `format_hex`, as its own
/// ASCII upper-case form: the canonical text of a colour is its input
/// upper-cased.
pub proof fn lemma_parse_then_format(s: Seq<char>)
    requires
        spec_parse_hex(s) is Ok,
    ensures
        spec_format_hex(spec_parse_hex(s)->Ok_0) == ascii_upper(s),
{
    let c = spec_parse_hex(s)->Ok_0;
    assert(is_hex_digit(s[1]) && is_hex_digit(s[2]) && is_hex_digit(s[3]));
    assert(is_hex_digit(s[4]) && is_hex_digit(s[5]) && is_hex_digit(s[6]));
    lemma_digit_upper(s[1]);
    lemma_digit_upper(s[2]);
    lemma_digit_upper(s[3]);
    lemma_digit_upper(s[4]);
    lemma_digit_upper(s[5]);
    lemma_digit_upper(s[6]);
    lemma_byte_split(digit_value(s[1])->0, digit_value(s[2])->0);
    lemma_byte_split(digit_value(s[3])->0, digit_value(s[4])->0);
    lemma_byte_split(digit_value(s[5])->0, digit_value(s[6])->0);
    assert(spec_format_hex(c) =~= ascii_upper(s));
}

/// Parsing does not depend on the case of the digits: a text and its ASCII
/// upper-case form give the same colour or the same error.
pub proof fn lemma_parse_ignores_case(s: Seq<char>)
    ensures
        spec_parse_hex(ascii_upper(s)) == spec_parse_hex(s),
{
    let u = ascii_upper(s);
    assert(u.len() == s.len());
    if s.len() == 7 {
        assert(u[0] == upper_char(s[0]));
        assert forall|i: int| 1 <= i < 7 implies u[i] == upper_char(s[i]) && digit_value(u[i])
            == digit_value(s[i]) by {
            lemma_digit_upper(s[i]);
        }
        assert(all_digits(u) == all_digits(s)) by {
            if all_digits(s) {
                assert forall|i: int| 1 <= i < 7 implies #[trigger] is_hex_digit(u[i]) by {
                    lemma_digit_upper(s[i]);
                    assert(is_hex_digit(s[i]));
                }
            }
            if all_digits(u) {
                assert forall|i: int| 1 <= i < 7 implies #[trigger] is_hex_digit(s[i]) by {
                    lemma_digit_upper(s[i]);
                    assert(is_hex_digit(u[i]));
                }
            }
        }
    }
}

} // verus!
