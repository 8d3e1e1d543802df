//! Rules of the native `.f9k` persistence format that do not depend on
//! floating point: the format version, how palettes are referenced, and the
//! `#RRGGBB` hex encoding of palette colors.
use vstd::prelude::*;
use vstd::string::*;
use vstd::utf8::*;
use crate::text::{decimal, decimal_string, lemma_boundary_after_ascii, lemma_view_is_decoded_bytes};

verus! {

broadcast use vstd::string::group_string_axioms;

/// The version number written into (and required of) every `.f9k` file.
pub const FORMAT_VERSION: u32 = 1;

/// File extension of the native format.
pub const FILE_EXTENSION: &'static str = "f9k";

/// Errors of saving and loading `.f9k` files.
#[derive(Debug, Clone)]
pub enum PersistError {
    Json(String),
    InvalidData(String),
    UnsupportedVersion { found: u32, expected: u32 },
}

impl PersistError {
    /// The error as text: the kind of error, then its detail; versions are
    /// written in decimal.
    pub fn message(&self) -> (r: String)
        ensures
            r@ == match self {
                PersistError::Json(m) => "JSON error: "@ + m@,
                PersistError::InvalidData(m) => "Invalid data: "@ + m@,
                PersistError::UnsupportedVersion { found, expected } => "Unsupported format version "@
                    + decimal(*found as nat) + " (this build supports "@ + decimal(*expected as nat)
                    + ")"@,
            },
    {
        match self {
            PersistError::Json(m) => {
                let mut s = String::from_str("JSON error: ");
                s.append(m.as_str());
                s
            },
            PersistError::InvalidData(m) => {
                let mut s = String::from_str("Invalid data: ");
                s.append(m.as_str());
                s
            },
            PersistError::UnsupportedVersion { found, expected } => {
                let mut s = String::from_str("Unsupported format version ");
                s.append(decimal_string(*found).as_str());
                s.append(" (this build supports ");
                s.append(decimal_string(*expected).as_str());
                s.append(")");
                s
            },
        }
    }
}

/// How a palette is stored in a `.f9k` file: a 1D palette inline as
/// `"#RRGGBB"` strings, a 2D palette by the name of a built-in palette.
#[derive(Clone, Debug, PartialEq)]
pub enum PaletteRef {
    Inline { colors: Vec<String> },
    Named { name: String },
}

/// A color quantized to one byte per channel, as the hex encoding stores it.
#[derive(Clone, Copy, Debug, PartialEq, Eq, Hash, Structural)]
pub struct Rgb8 {
    pub r: u8,
    pub g: u8,
    pub b: u8,
}

/// Accept exactly the format version this build writes.
pub fn check_format_version(found: u32) -> (r: Result<(), PersistError>)
    ensures
        found == FORMAT_VERSION ==> r is Ok,
        found != FORMAT_VERSION ==> r == Err::<(), PersistError>(
            PersistError::UnsupportedVersion { found, expected: FORMAT_VERSION },
        ),
{
    if found != FORMAT_VERSION {
        Err(PersistError::UnsupportedVersion { found, expected: FORMAT_VERSION })
    } else {
        Ok(())
    }
}

// ---------------------------------------------------------------------------
// Hex encoding
// ---------------------------------------------------------------------------

/// Upper-case hex digit of a value below 16.
pub open spec fn hex_char(n: u8) -> char {
    if n < 10 {
        (48 + n) as char
    } else {
        (55 + n) as char
    }
}

/// The two upper-case hex digits of a byte.
pub open spec fn hex_byte_chars(n: u8) -> Seq<char> {
    seq![hex_char(n / 16), hex_char(n % 16)]
}

/// `#RRGGBB` with upper-case digits.
pub open spec fn spec_encode_hex(c: Rgb8) -> Seq<char> {
    seq!['#'] + hex_byte_chars(c.r) + hex_byte_chars(c.g) + hex_byte_chars(c.b)
}

fn hex_digit(n: u8) -> (r: &'static str)
    requires
        n < 16,
    ensures
        r@ == seq![hex_char(n)],
{
    match n {
            0 => {
                proof {
                    reveal_strlit("0");
                }
                "0"
            },
            1 => {
                proof {
                    reveal_strlit("1");
                }
                "1"
            },
            2 => {
                proof {
                    reveal_strlit("2");
                }
                "2"
            },
            3 => {
                proof {
                    reveal_strlit("3");
                }
                "3"
            },
            4 => {
                proof {
                    reveal_strlit("4");
                }
                "4"
            },
            5 => {
                proof {
                    reveal_strlit("5");
                }
                "5"
            },
            6 => {
                proof {
                    reveal_strlit("6");
                }
                "6"
            },
            7 => {
                proof {
                    reveal_strlit("7");
                }
                "7"
            },
            8 => {
                proof {
                    reveal_strlit("8");
                }
                "8"
            },
            9 => {
                proof {
                    reveal_strlit("9");
                }
                "9"
            },
            10 => {
                proof {
                    reveal_strlit("A");
                }
                "A"
            },
            11 => {
                proof {
                    reveal_strlit("B");
                }
                "B"
            },
            12 => {
                proof {
                    reveal_strlit("C");
                }
                "C"
            },
            13 => {
                proof {
                    reveal_strlit("D");
                }
                "D"
            },
            14 => {
                proof {
                    reveal_strlit("E");
                }
                "E"
            },
            _ => {
                proof {
                    reveal_strlit("F");
                }
                "F"
            },
        }
}

/// Encode a color as `#RRGGBB` (upper-case hex).
pub fn encode_hex(c: Rgb8) -> (r: String)
    ensures
        r@ == spec_encode_hex(c),
{
    proof {
        reveal_strlit("#");
    }
    let mut s = String::from_str("#");
    s.append(hex_digit(c.r / 16));
    s.append(hex_digit(c.r % 16));
    s.append(hex_digit(c.g / 16));
    s.append(hex_digit(c.g % 16));
    s.append(hex_digit(c.b / 16));
    s.append(hex_digit(c.b % 16));
    assert(s@ =~= spec_encode_hex(c));
    s
}

// ---------------------------------------------------------------------------
// Hex decoding
// ---------------------------------------------------------------------------

/// Value of a hex digit byte (either case).
pub open spec fn hex_value(b: u8) -> Option<u8> {
    if 48 <= b <= 57 {
        Some((b - 48) as u8)
    } else if 97 <= b <= 102 {
        Some((b - 87) as u8)
    } else if 65 <= b <= 70 {
        Some((b - 55) as u8)
    } else {
        None
    }
}

/// What `u8::from_str_radix(_, 16)` makes of a two-byte string: two hex
/// digits, or a `+` sign followed by one.
pub open spec fn hex_pair(a: u8, b: u8) -> Option<u8> {
    if a == 43 {
        hex_value(b)
    } else {
        match (hex_value(a), hex_value(b)) {
            (Some(x), Some(y)) => Some((16 * x + y) as u8),
            _ => None,
        }
    }
}

/// The bytes left after removing every leading `#`.
pub open spec fn trim_hashes(s: Seq<u8>) -> Seq<u8>
    decreases s.len(),
{
    if s.len() > 0 && s[0] == 35 {
        trim_hashes(s.drop_first())
    } else {
        s
    }
}

/// Error text for a string that is not six digits long.
pub open spec fn bad_color_message(body: Seq<char>) -> Seq<char> {
    "invalid hex color \""@ + body + "\""@
}

/// Error text for a two-character slice that is not a hex byte.
pub open spec fn bad_byte_message(body: Seq<char>) -> Seq<char> {
    "invalid hex byte \""@ + body + "\""@
}

/// Decoding slices the trimmed text at bytes 2 and 4; those positions must
/// fall on character boundaries whenever the slicing happens.
pub open spec fn hex_slicing_ok(s: Seq<u8>) -> bool {
    let t = trim_hashes(s);
    t.len() == 6 ==> {
        &&& !is_continuation_byte(t[2])
        &&& hex_pair(t[0], t[1]) is Some ==> !is_continuation_byte(t[4])
    }
}

/// Decoding of `[#...#]RRGGBB`, with the error text on failure.
pub open spec fn spec_decode_hex(s: Seq<u8>) -> Result<Rgb8, Seq<char>> {
    let t = trim_hashes(s);
    if t.len() != 6 {
        Err(bad_color_message(decode_utf8(t)))
    } else if hex_pair(t[0], t[1]) is None {
        Err(bad_byte_message(decode_utf8(t.subrange(0, 2))))
    } else if hex_pair(t[2], t[3]) is None {
        Err(bad_byte_message(decode_utf8(t.subrange(2, 4))))
    } else if hex_pair(t[4], t[5]) is None {
        Err(bad_byte_message(decode_utf8(t.subrange(4, 6))))
    } else {
        Ok(
            Rgb8 {
                r: hex_pair(t[0], t[1])->0,
                g: hex_pair(t[2], t[3])->0,
                b: hex_pair(t[4], t[5])->0,
            },
        )
    }
}

/// A decoding result agrees with its specification.
pub open spec fn decoded_as(r: Result<Rgb8, PersistError>, spec: Result<Rgb8, Seq<char>>) -> bool {
    match (r, spec) {
        (Ok(c), Ok(d)) => c == d,
        (Err(PersistError::InvalidData(m)), Err(msg)) => m@ == msg,
        _ => false,
    }
}

fn exec_hex_value(b: u8) -> (r: Option<u8>)
    ensures
        r == hex_value(b),
{
    if 48 <= b && b <= 57 {
        Some(b - 48)
    } else if 97 <= b && b <= 102 {
        Some(b - 87)
    } else if 65 <= b && b <= 70 {
        Some(b - 55)
    } else {
        None
    }
}

fn exec_hex_pair(a: u8, b: u8) -> (r: Option<u8>)
    ensures
        r == hex_pair(a, b),
{
    if a == 43 {
        exec_hex_value(b)
    } else {
        match (exec_hex_value(a), exec_hex_value(b)) {
            (Some(x), Some(y)) => Some(16 * x + y),
            _ => None,
        }
    }
}

fn quoted_error(prefix: &str, body: &str) -> (r: PersistError)
    ensures
        r matches PersistError::InvalidData(m) && m@ == prefix@ + body@ + "\""@,
{
    let mut m = String::from_str(prefix);
    m.append(body);
    m.append("\"");
    PersistError::InvalidData(m)
}

proof fn lemma_trim_step(s: Seq<u8>, k: int)
    requires
        0 <= k < s.len(),
        s[k] == 35,
    ensures
        trim_hashes(s.skip(k)) == trim_hashes(s.skip(k + 1)),
{
    assert(s.skip(k).drop_first() =~= s.skip(k + 1));
}

/// Decode a `#RRGGBB` color.  Any number of leading `#` is accepted, and
/// each byte may also be written as `+` followed by one digit.
pub fn decode_hex(s: &str) -> (r: Result<Rgb8, PersistError>)
    requires
        hex_slicing_ok(s.spec_bytes()),
    ensures
        decoded_as(r, spec_decode_hex(s.spec_bytes())),
{
    let bytes = s.as_bytes();
    proof {
        lemma_view_is_decoded_bytes(s);
        is_char_boundary_start_end_of_seq(bytes@);
        assert(bytes@.skip(0) =~= bytes@);
    }
    let mut k: usize = 0;
    while k < bytes.len() && bytes[k] == 35u8
        invariant
            bytes@ == s.spec_bytes(),
            valid_utf8(bytes@),
            k <= bytes@.len(),
            is_char_boundary(bytes@, k as int),
            trim_hashes(bytes@) == trim_hashes(bytes@.skip(k as int)),
        decreases bytes@.len() - k,
    {
        proof {
            lemma_boundary_after_ascii(bytes@, k as int);
            lemma_trim_step(bytes@, k as int);
        }
        k += 1;
    }
    let (_, t) = s.split_at(k);
    let ghost tb = t.spec_bytes();
    proof {
        assert(tb =~= bytes@.skip(k as int));
        lemma_view_is_decoded_bytes(t);
    }
    if t.len() != 6 {
        return Err(quoted_error("invalid hex color \"", t));
    }
    let tbytes = t.as_bytes();
    proof {
        is_char_boundary_iff_not_is_continuation_byte(tb, 2);
    }
    let (p0, rest) = t.split_at(2);
    proof {
        lemma_view_is_decoded_bytes(p0);
        lemma_view_is_decoded_bytes(rest);
    }
    let r = match exec_hex_pair(tbytes[0], tbytes[1]) {
        Some(x) => x,
        None => return Err(quoted_error("invalid hex byte \"", p0)),
    };
    proof {
        is_char_boundary_iff_not_is_continuation_byte(rest.spec_bytes(), 2);
    }
    let (p1, p2) = rest.split_at(2);
    proof {
        lemma_view_is_decoded_bytes(p1);
        lemma_view_is_decoded_bytes(p2);
        assert(p1.spec_bytes() =~= tb.subrange(2, 4));
        assert(p2.spec_bytes() =~= tb.subrange(4, 6));
    }
    let g = match exec_hex_pair(tbytes[2], tbytes[3]) {
        Some(x) => x,
        None => return Err(quoted_error("invalid hex byte \"", p1)),
    };
    let b = match exec_hex_pair(tbytes[4], tbytes[5]) {
        Some(x) => x,
        None => return Err(quoted_error("invalid hex byte \"", p2)),
    };
    Ok(Rgb8 { r, g, b })
}

/// The byte of an ASCII hex digit character.
proof fn lemma_hex_char_value(n: u8)
    requires
        n < 16,
    ensures
        (hex_char(n) as u8) != 43,
        (hex_char(n) as u8) != 35,
        hex_value(hex_char(n) as u8) == Some(n),
        '\0' <= hex_char(n) <= '\u{7f}',
{
}

/// Encoding a color and decoding the text gives the color back, and the
/// encoded text never trips the slicing precondition of [`decode_hex`].
pub proof fn lemma_hex_round_trip(c: Rgb8)
    ensures
        hex_slicing_ok(encode_utf8(spec_encode_hex(c))),
        spec_decode_hex(encode_utf8(spec_encode_hex(c))) == Ok::<Rgb8, Seq<char>>(c),
{
    let chars = spec_encode_hex(c);
    lemma_hex_char_value(c.r / 16);
    lemma_hex_char_value(c.r % 16);
    lemma_hex_char_value(c.g / 16);
    lemma_hex_char_value(c.g % 16);
    lemma_hex_char_value(c.b / 16);
    lemma_hex_char_value(c.b % 16);
    assert(chars.len() == 7);
    assert(is_ascii_chars(chars));
    is_ascii_chars_encode_utf8(chars);
    let bytes = encode_utf8(chars);
    assert(bytes[0] == 35);
    let t = bytes.drop_first();
    assert(t[0] == chars[1] as u8);
    assert(trim_hashes(t) == t);
    assert(trim_hashes(bytes) == t);
    assert(t[0] == hex_char(c.r / 16) as u8 && t[1] == hex_char(c.r % 16) as u8);
    assert(t[2] == hex_char(c.g / 16) as u8 && t[3] == hex_char(c.g % 16) as u8);
    assert(t[4] == hex_char(c.b / 16) as u8 && t[5] == hex_char(c.b % 16) as u8);
    assert(hex_pair(t[0], t[1]) == Some(c.r));
    assert(hex_pair(t[2], t[3]) == Some(c.g));
    assert(hex_pair(t[4], t[5]) == Some(c.b));
}

/// Value of a character as an upper-case hexadecimal digit: `0`-`9` are 0
/// to 9 and `A`-`F` are 10 to 15; any other character has none (-1).
pub open spec fn upper_hex_digit_value(ch: char) -> int {
    if 48 <= ch as int && ch as int <= 57 {
        ch as int - 48
    } else if 65 <= ch as int && ch as int <= 70 {
        ch as int - 55
    } else {
        -1
    }
}

/// Value of a byte as a hexadecimal digit of either case; -1 for any other
/// byte.
pub open spec fn hex_digit_byte_value(b: u8) -> int {
    if 48 <= b && b <= 57 {
        b - 48
    } else if 65 <= b && b <= 70 {
        b - 55
    } else if 97 <= b && b <= 102 {
        b - 87
    } else {
        -1
    }
}

proof fn lemma_byte_digits(n: u8)
    ensures
        n == 16 * (n / 16) + n % 16,
        n / 16 < 16,
        n % 16 < 16,
{
    assert(n == 16 * (n / 16) + n % 16) by (bit_vector);
    assert(n / 16 < 16) by (bit_vector);
    assert(n % 16 < 16) by (bit_vector);
}

/// The encoding of a color is `#` and then, for red, green and blue in
/// turn, the byte as two upper-case hexadecimal digits, high digit first.
pub proof fn lemma_encode_hex_digits(c: Rgb8)
    ensures
        spec_encode_hex(c).len() == 7,
        spec_encode_hex(c)[0] == '#',
        forall|i: int| 1 <= i < 7 ==> upper_hex_digit_value(#[trigger] spec_encode_hex(c)[i]) >= 0,
        16 * upper_hex_digit_value(spec_encode_hex(c)[1]) + upper_hex_digit_value(
            spec_encode_hex(c)[2],
        ) == c.r,
        16 * upper_hex_digit_value(spec_encode_hex(c)[3]) + upper_hex_digit_value(
            spec_encode_hex(c)[4],
        ) == c.g,
        16 * upper_hex_digit_value(spec_encode_hex(c)[5]) + upper_hex_digit_value(
            spec_encode_hex(c)[6],
        ) == c.b,
{
    lemma_byte_digits(c.r);
    lemma_byte_digits(c.g);
    lemma_byte_digits(c.b);
    let e = spec_encode_hex(c);
    assert(e[1] == hex_char(c.r / 16) && e[2] == hex_char(c.r % 16));
    assert(e[3] == hex_char(c.g / 16) && e[4] == hex_char(c.g % 16));
    assert(e[5] == hex_char(c.b / 16) && e[6] == hex_char(c.b % 16));
}

/// `#` and six hexadecimal digits (either case) decode to the color whose
/// red, green and blue bytes the three digit pairs give, high digit first.
pub proof fn lemma_decode_hex_digits(s: Seq<u8>)
    requires
        s.len() == 7,
        s[0] == 35,
        forall|i: int| 1 <= i < 7 ==> hex_digit_byte_value(#[trigger] s[i]) >= 0,
    ensures
        spec_decode_hex(s) == Ok::<Rgb8, Seq<char>>(
            Rgb8 {
                r: (16 * hex_digit_byte_value(s[1]) + hex_digit_byte_value(s[2])) as u8,
                g: (16 * hex_digit_byte_value(s[3]) + hex_digit_byte_value(s[4])) as u8,
                b: (16 * hex_digit_byte_value(s[5]) + hex_digit_byte_value(s[6])) as u8,
            },
        ),
{
    let t = s.drop_first();
    assert(hex_digit_byte_value(s[1]) >= 0);
    assert(hex_digit_byte_value(s[2]) >= 0);
    assert(hex_digit_byte_value(s[3]) >= 0);
    assert(hex_digit_byte_value(s[4]) >= 0);
    assert(hex_digit_byte_value(s[5]) >= 0);
    assert(hex_digit_byte_value(s[6]) >= 0);
    assert(t[0] == s[1] && t[1] == s[2] && t[2] == s[3] && t[3] == s[4] && t[4] == s[5] && t[5]
        == s[6]);
    assert(trim_hashes(t) == t);
    assert(trim_hashes(s) == t);
}

/// A two-byte slice that `u8::from_str_radix(_, 16)` reads: two
/// hexadecimal digits, or `+` and one digit.
pub open spec fn is_hex_byte_text(a: u8, b: u8) -> bool {
    hex_digit_byte_value(b) >= 0 && (a == 43 || hex_digit_byte_value(a) >= 0)
}

/// The number such a slice stands for.
pub open spec fn hex_byte_text_value(a: u8, b: u8) -> int {
    if a == 43 {
        hex_digit_byte_value(b)
    } else {
        16 * hex_digit_byte_value(a) + hex_digit_byte_value(b)
    }
}

/// Leading `#` characters do not change what a color decodes to.
pub proof fn lemma_decode_ignores_leading_hash(s: Seq<u8>)
    ensures
        spec_decode_hex(seq![35u8] + s) == spec_decode_hex(s),
{
    assert((seq![35u8] + s).drop_first() =~= s);
    assert(trim_hashes(seq![35u8] + s) == trim_hashes(s));
}

/// A color decodes exactly when, after its leading `#` characters, it is
/// six bytes forming three byte texts (two digits, or `+` and a digit); the
/// color's bytes are then the numbers those texts stand for.
pub proof fn lemma_decode_hex_accepts(s: Seq<u8>)
    ensures
        ({
            let t = trim_hashes(s);
            let accepted = t.len() == 6 && is_hex_byte_text(t[0], t[1]) && is_hex_byte_text(t[2], t[3])
                && is_hex_byte_text(t[4], t[5]);
            &&& spec_decode_hex(s) is Ok <==> accepted
            &&& accepted ==> spec_decode_hex(s) == Ok::<Rgb8, Seq<char>>(
                Rgb8 {
                    r: hex_byte_text_value(t[0], t[1]) as u8,
                    g: hex_byte_text_value(t[2], t[3]) as u8,
                    b: hex_byte_text_value(t[4], t[5]) as u8,
                },
            )
        }),
{
}

// ---------------------------------------------------------------------------
// Palette references
// ---------------------------------------------------------------------------

/// Decoding a list of hex colors; the first failure decides the error.
pub open spec fn spec_decode_colors(cs: Seq<Seq<char>>) -> Result<Seq<Rgb8>, Seq<char>>
    decreases cs.len(),
{
    if cs.len() == 0 {
        Ok(Seq::empty())
    } else {
        match spec_decode_colors(cs.drop_last()) {
            Err(m) => Err(m),
            Ok(xs) => match spec_decode_hex(encode_utf8(cs.last())) {
                Ok(x) => Ok(xs.push(x)),
                Err(m) => Err(m),
            },
        }
    }
}

/// Every color that decoding reaches can be sliced safely.
pub open spec fn colors_slicing_ok(cs: Seq<Seq<char>>) -> bool {
    forall|i: int|
        0 <= i < cs.len() && spec_decode_colors(cs.take(i)) is Ok ==> hex_slicing_ok(
            encode_utf8(#[trigger] cs[i]),
        )
}

/// The character views of a list of strings.
pub open spec fn string_views(v: Seq<String>) -> Seq<Seq<char>> {
    v.map_values(|s: String| s@)
}

proof fn lemma_decode_colors_err_sticks(cs: Seq<Seq<char>>, i: int, j: int)
    requires
        0 <= i <= j <= cs.len(),
        spec_decode_colors(cs.take(i)) is Err,
    ensures
        spec_decode_colors(cs.take(j)) == spec_decode_colors(cs.take(i)),
    decreases j - i,
{
    if j > i {
        lemma_decode_colors_err_sticks(cs, i, j - 1);
        assert(cs.take(j).drop_last() =~= cs.take(j - 1));
    }
}

/// Decode the inline colors of a 1D palette.
pub fn decode_palette_colors(colors: &Vec<String>) -> (r: Result<Vec<Rgb8>, PersistError>)
    requires
        colors_slicing_ok(string_views(colors@)),
    ensures
        match (r, spec_decode_colors(string_views(colors@))) {
            (Ok(v), Ok(w)) => v@ == w,
            (Err(PersistError::InvalidData(m)), Err(msg)) => m@ == msg,
            _ => false,
        },
{
    let ghost cs = string_views(colors@);
    let mut out: Vec<Rgb8> = Vec::new();
    let mut i: usize = 0;
    proof {
        assert(cs.take(0) =~= Seq::<Seq<char>>::empty());
    }
    while i < colors.len()
        invariant
            cs == string_views(colors@),
            colors_slicing_ok(cs),
            i <= colors@.len(),
            spec_decode_colors(cs.take(i as int)) == Ok::<Seq<Rgb8>, Seq<char>>(out@),
        decreases colors@.len() - i,
    {
        let s = colors[i].as_str();
        proof {
            assert(cs[i as int] == colors@[i as int]@);
            assert(cs.take(i + 1).drop_last() =~= cs.take(i as int));
            assert(cs.take(i + 1).last() == cs[i as int]);
        }
        match decode_hex(s) {
            Ok(c) => {
                out.push(c);
            },
            Err(e) => {
                proof {
                    lemma_decode_colors_err_sticks(cs, i + 1, cs.len() as int);
                    assert(cs.take(cs.len() as int) =~= cs);
                }
                return Err(e);
            },
        }
        i += 1;
    }
    proof {
        assert(cs.take(cs.len() as int) =~= cs);
    }
    Ok(out)
}

/// Whether decoding `s` slices only at character boundaries.
pub fn hex_slicing_safe(s: &str) -> (r: bool)
    ensures
        r == hex_slicing_ok(s.spec_bytes()),
{
    let bytes = s.as_bytes();
    let mut k: usize = 0;
    proof {
        assert(bytes@.skip(0) =~= bytes@);
    }
    while k < bytes.len() && bytes[k] == 35u8
        invariant
            bytes@ == s.spec_bytes(),
            k <= bytes@.len(),
            trim_hashes(bytes@) == trim_hashes(bytes@.skip(k as int)),
        decreases bytes@.len() - k,
    {
        proof {
            lemma_trim_step(bytes@, k as int);
        }
        k += 1;
    }
    let ghost t = bytes@.skip(k as int);
    proof {
        assert(trim_hashes(t) == t);
    }
    if bytes.len() - k != 6 {
        return true;
    }
    let b2 = bytes[k + 2];
    if 0x80 <= b2 && b2 <= 0xbf {
        return false;
    }
    match exec_hex_pair(bytes[k], bytes[k + 1]) {
        Some(_) => {
            let b4 = bytes[k + 4];
            !(0x80 <= b4 && b4 <= 0xbf)
        },
        None => true,
    }
}

/// Whether decoding the color list slices only at character boundaries.
pub fn colors_slicing_safe(colors: &Vec<String>) -> (r: bool)
    ensures
        r == colors_slicing_ok(string_views(colors@)),
{
    let ghost cs = string_views(colors@);
    let mut i: usize = 0;
    proof {
        assert(cs.take(0) =~= Seq::<Seq<char>>::empty());
    }
    while i < colors.len()
        invariant
            cs == string_views(colors@),
            i <= colors@.len(),
            spec_decode_colors(cs.take(i as int)) is Ok,
            forall|j: int| 0 <= j < i ==> hex_slicing_ok(encode_utf8(#[trigger] cs[j])),
        decreases colors@.len() - i,
    {
        let s = colors[i].as_str();
        proof {
            assert(cs[i as int] == colors@[i as int]@);
            assert(cs.take(i + 1).drop_last() =~= cs.take(i as int));
            assert(cs.take(i + 1).last() == cs[i as int]);
        }
        if !hex_slicing_safe(s) {
            return false;
        }
        if decode_hex(s).is_err() {
            proof {
                assert forall|j: int|
                    0 <= j < cs.len() && spec_decode_colors(cs.take(j)) is Ok implies hex_slicing_ok(
                    encode_utf8(#[trigger] cs[j]),
                ) by {
                    if j > i {
                        lemma_decode_colors_err_sticks(cs, i + 1, j);
                    }
                }
            }
            return true;
        }
        i += 1;
    }
    true
}

impl PaletteRef {
    /// Reference a 1D palette by storing its colors inline as hex strings.
    pub fn inline_from(colors: &Vec<Rgb8>) -> (r: PaletteRef)
        ensures
            r matches PaletteRef::Inline { colors: cs } && cs@.len() == colors@.len() && (
            forall|i: int| 0 <= i < cs@.len() ==> #[trigger] cs@[i]@ == spec_encode_hex(colors@[i])),
    {
        let mut cs: Vec<String> = Vec::new();
        let mut i: usize = 0;
        while i < colors.len()
            invariant
                i <= colors@.len(),
                cs@.len() == i,
                forall|k: int| 0 <= k < i ==> #[trigger] cs@[k]@ == spec_encode_hex(colors@[k]),
            decreases colors@.len() - i,
        {
            cs.push(encode_hex(colors[i]));
            i += 1;
        }
        PaletteRef::Inline { colors: cs }
    }

    /// Reference a 2D palette by name, falling back to `"default"`.
    pub fn named_or_default(name: Option<String>) -> (r: PaletteRef)
        ensures
            r matches PaletteRef::Named { name: n } && n@ == (match name {
                Some(s) => s@,
                None => "default"@,
            }),
    {
        match name {
            Some(n) => PaletteRef::Named { name: n },
            None => PaletteRef::Named { name: String::from_str("default") },
        }
    }
}

/// What a stored palette reference resolves to when a flame is loaded.
#[derive(Clone, Debug, PartialEq)]
pub enum PaletteSource {
    /// The colors of an inline 1D palette.
    Colors(Vec<Rgb8>),
    /// A built-in 2D palette, to be looked up by name.
    Named(String),
    /// Inline colors that do not decode: the renderer's default is used.
    Default,
}

impl PaletteRef {
    /// How a palette with `height` rows is stored: a 1D palette (one row)
    /// inline as its colors, any other by name.
    pub fn for_grid(height: u32, colors: &Vec<Rgb8>, name: Option<String>) -> (r: PaletteRef)
        ensures
            height == 1 ==> (r matches PaletteRef::Inline { colors: cs } && cs@.len()
                == colors@.len() && (forall|i: int|
                0 <= i < cs@.len() ==> #[trigger] cs@[i]@ == spec_encode_hex(colors@[i]))),
            height != 1 ==> (r matches PaletteRef::Named { name: n } && n@ == (match name {
                Some(s) => s@,
                None => "default"@,
            })),
    {
        if height == 1 {
            PaletteRef::inline_from(colors)
        } else {
            PaletteRef::named_or_default(name)
        }
    }

    /// What this reference resolves to: decoded inline colors (the default
    /// palette when they do not decode), or the name to look up.
    pub fn source(self) -> (r: PaletteSource)
        requires
            self matches PaletteRef::Inline { colors } ==> colors_slicing_ok(string_views(colors@)),
        ensures
            match self {
                PaletteRef::Inline { colors } => match spec_decode_colors(string_views(colors@)) {
                    Ok(w) => r matches PaletteSource::Colors(v) && v@ == w,
                    Err(_) => r is Default,
                },
                PaletteRef::Named { name } => r == PaletteSource::Named(name),
            },
    {
        match self {
            PaletteRef::Inline { colors } => match decode_palette_colors(&colors) {
                Ok(v) => PaletteSource::Colors(v),
                Err(_) => PaletteSource::Default,
            },
            PaletteRef::Named { name } => PaletteSource::Named(name),
        }
    }
}

/// Colors stored inline decode back to exactly the colors that were stored.
pub proof fn lemma_inline_palette_round_trip(colors: Seq<Rgb8>)
    ensures
        spec_decode_colors(colors.map_values(|c: Rgb8| spec_encode_hex(c))) == Ok::<
            Seq<Rgb8>,
            Seq<char>,
        >(colors),
        colors_slicing_ok(colors.map_values(|c: Rgb8| spec_encode_hex(c))),
    decreases colors.len(),
{
    let cs = colors.map_values(|c: Rgb8| spec_encode_hex(c));
    if colors.len() > 0 {
        let init = colors.drop_last();
        lemma_inline_palette_round_trip(init);
        assert(cs.drop_last() =~= init.map_values(|c: Rgb8| spec_encode_hex(c)));
        lemma_hex_round_trip(colors.last());
        assert(cs.last() == spec_encode_hex(colors.last()));
        assert(colors.drop_last().push(colors.last()) =~= colors);
    } else {
        assert(colors =~= Seq::<Rgb8>::empty());
    }
    assert forall|i: int| 0 <= i < cs.len() && spec_decode_colors(cs.take(i)) is Ok implies hex_slicing_ok(
        encode_utf8(#[trigger] cs[i]),
    ) by {
        lemma_hex_round_trip(colors[i]);
    }
}

} // verus!
