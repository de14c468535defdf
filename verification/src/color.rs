use vstd::prelude::*;

verus! {

/// An 8-bit-per-channel RGBA colour, the form in which the canvas stores
/// and serialises every colour.
#[derive(Debug, Clone, Copy, PartialEq, Eq, Structural)]
pub struct SerializableColor {
    pub r: u8,
    pub g: u8,
    pub b: u8,
    pub a: u8,
}

/// The colour with the given channels.
pub open spec fn rgba(r: u8, g: u8, b: u8, a: u8) -> SerializableColor {
    SerializableColor { r, g, b, a }
}

impl SerializableColor {
    /// Builds a colour from its four channels.
    pub fn new(r: u8, g: u8, b: u8, a: u8) -> (c: Self)
        ensures
            c == rgba(r, g, b, a),
    {
        Self { r, g, b, a }
    }

    /// Opaque black.
    pub fn black() -> (c: Self)
        ensures
            c == rgba(0, 0, 0, 255),
    {
        Self::new(0, 0, 0, 255)
    }

    /// Opaque white.
    pub fn white() -> (c: Self)
        ensures
            c == rgba(255, 255, 255, 255),
    {
        Self::new(255, 255, 255, 255)
    }

    /// Fully transparent black.
    pub fn transparent() -> (c: Self)
        ensures
            c == rgba(0, 0, 0, 0),
    {
        Self::new(0, 0, 0, 0)
    }
}

// ---------------------------------------------------------------------------
// Parsing `#rrggbb`
// ---------------------------------------------------------------------------

/// The characters that `str::trim` removes: those with the Unicode
/// `White_Space` property.
pub open spec fn is_unicode_whitespace(c: char) -> bool {
    let u = c as u32;
    ||| 0x9 <= u <= 0xD
    ||| u == 0x20
    ||| u == 0x85
    ||| u == 0xA0
    ||| u == 0x1680
    ||| 0x2000 <= u <= 0x200A
    ||| u == 0x2028
    ||| u == 0x2029
    ||| u == 0x202F
    ||| u == 0x205F
    ||| u == 0x3000
}

/// `s` without its leading white space.
pub open spec fn trim_start(s: Seq<char>) -> Seq<char>
    decreases s.len(),
{
    if s.len() > 0 && is_unicode_whitespace(s[0]) {
        trim_start(s.drop_first())
    } else {
        s
    }
}

/// `s` without its trailing white space.
pub open spec fn trim_end(s: Seq<char>) -> Seq<char>
    decreases s.len(),
{
    if s.len() > 0 && is_unicode_whitespace(s.last()) {
        trim_end(s.drop_last())
    } else {
        s
    }
}

/// `s` without leading and trailing white space.
pub open spec fn trim(s: Seq<char>) -> Seq<char> {
    trim_end(trim_start(s))
}

/// The value of a hexadecimal digit (either case).
pub open spec fn hex_digit(c: char) -> Option<u8> {
    if '0' <= c && c <= '9' {
        Some((c as u32 - '0' as u32) as u8)
    } else if 'a' <= c && c <= 'f' {
        Some((c as u32 - 'a' as u32 + 10) as u8)
    } else if 'A' <= c && c <= 'F' {
        Some((c as u32 - 'A' as u32 + 10) as u8)
    } else {
        None
    }
}

/// What `u8::from_str_radix(.., 16)` gives for a two-character string:
/// two hex digits, or a `+` sign followed by one hex digit.
pub open spec fn hex_byte(c1: char, c2: char) -> Option<u8> {
    if c1 == '+' {
        hex_digit(c2)
    } else {
        match (hex_digit(c1), hex_digit(c2)) {
            (Some(hi), Some(lo)) => Some((16 * hi + lo) as u8),
            _ => None,
        }
    }
}

/// The colour that `#rrggbb` (after trimming white space) denotes, opaque;
/// `None` for any other text.
pub open spec fn parsed_color(s: Seq<char>) -> Option<SerializableColor> {
    let t = trim(s);
    if t.len() == 7 && t[0] == '#' {
        match (hex_byte(t[1], t[2]), hex_byte(t[3], t[4]), hex_byte(t[5], t[6])) {
            (Some(r), Some(g), Some(b)) => Some(rgba(r, g, b, 255)),
            _ => None,
        }
    } else {
        None
    }
}

/// Number of bytes of the UTF-8 encoding of `c`.
pub open spec fn utf8_width(c: char) -> nat {
    let u = c as u32;
    if u < 0x80 {
        1
    } else if u < 0x800 {
        2
    } else if u < 0x10000 {
        3
    } else {
        4
    }
}

/// Number of bytes of the UTF-8 encoding of `s`.
pub open spec fn utf8_size(s: Seq<char>) -> nat
    decreases s.len(),
{
    if s.len() == 0 {
        0
    } else {
        utf8_size(s.drop_last()) + utf8_width(s.last())
    }
}

/// Whether byte offset `k` of the UTF-8 encoding of `s` starts a character.
pub open spec fn is_byte_boundary(s: Seq<char>, k: int) -> bool {
    exists|i: int| 0 <= i <= s.len() && utf8_size(#[trigger] s.take(i)) == k
}

/// The inputs on which reading the trimmed text as byte pairs would slice
/// through a character: seven bytes that start with `#`, where byte 3 is
/// inside a multi-byte character, or where the first pair reads as a number
/// and byte 5 is inside one. (A first pair that does not read ends the
/// parse before byte 5 is looked at.)
pub open spec fn splits_a_character(s: Seq<char>) -> bool {
    let t = trim(s);
    &&& utf8_size(t) == 7
    &&& t.len() > 0
    &&& t[0] == '#'
    &&& {
        ||| !is_byte_boundary(t, 3)
        ||| (t.len() >= 3 && hex_byte(t[1], t[2]) is Some && !is_byte_boundary(t, 5))
    }
}

fn is_whitespace_char(c: char) -> (b: bool)
    ensures
        b == is_unicode_whitespace(c),
{
    let u = c as u32;
    (0x9 <= u && u <= 0xD) || u == 0x20 || u == 0x85 || u == 0xA0 || u == 0x1680 || (0x2000 <= u
        && u <= 0x200A) || u == 0x2028 || u == 0x2029 || u == 0x202F || u == 0x205F || u == 0x3000
}

fn hex_digit_of(c: char) -> (d: Option<u8>)
    ensures
        d == hex_digit(c),
{
    let u = c as u32;
    if 0x30 <= u && u <= 0x39 {
        Some((u - 0x30) as u8)
    } else if 0x61 <= u && u <= 0x66 {
        Some((u - 0x61 + 10) as u8)
    } else if 0x41 <= u && u <= 0x46 {
        Some((u - 0x41 + 10) as u8)
    } else {
        None
    }
}

fn hex_byte_of(c1: char, c2: char) -> (b: Option<u8>)
    ensures
        b == hex_byte(c1, c2),
{
    if c1 == '+' {
        hex_digit_of(c2)
    } else {
        match (hex_digit_of(c1), hex_digit_of(c2)) {
            (Some(hi), Some(lo)) => Some(16 * hi + lo),
            _ => None,
        }
    }
}

proof fn lemma_trim_start_step(s: Seq<char>, i: int)
    requires
        0 <= i < s.len(),
        is_unicode_whitespace(s[i]),
    ensures
        trim_start(s.subrange(i, s.len() as int)) == trim_start(s.subrange(i + 1, s.len() as int)),
{
    assert(s.subrange(i, s.len() as int).drop_first() =~= s.subrange(i + 1, s.len() as int));
}

proof fn lemma_trim_end_step(s: Seq<char>, lo: int, j: int)
    requires
        0 <= lo < j <= s.len(),
        is_unicode_whitespace(s[j - 1]),
    ensures
        trim_end(s.subrange(lo, j)) == trim_end(s.subrange(lo, j - 1)),
{
    assert(s.subrange(lo, j).drop_last() =~= s.subrange(lo, j - 1));
}

/// Finds the character range of `s` that `str::trim` keeps.
fn trimmed_range(s: &str) -> (r: (usize, usize))
    ensures
        r.0 <= r.1 <= s@.len(),
        trim(s@) == s@.subrange(r.0 as int, r.1 as int),
{
    let n = s.unicode_len();
    let mut lo: usize = 0;
    assert(s@.subrange(0, n as int) =~= s@);
    while lo < n && is_whitespace_char(s.get_char(lo))
        invariant
            n == s@.len(),
            lo <= n,
            trim_start(s@) == trim_start(s@.subrange(lo as int, n as int)),
        decreases n - lo,
    {
        proof {
            lemma_trim_start_step(s@, lo as int);
        }
        lo = lo + 1;
    }
    let ghost rest = s@.subrange(lo as int, n as int);
    assert(trim_start(rest) == rest);
    let mut hi: usize = n;
    while hi > lo && is_whitespace_char(s.get_char(hi - 1))
        invariant
            n == s@.len(),
            lo <= hi <= n,
            trim_start(s@) == rest,
            rest == s@.subrange(lo as int, n as int),
            trim_end(rest) == trim_end(s@.subrange(lo as int, hi as int)),
        decreases hi - lo,
    {
        proof {
            lemma_trim_end_step(s@, lo as int, hi as int);
        }
        hi = hi - 1;
    }
    assert(trim_end(s@.subrange(lo as int, hi as int)) == s@.subrange(lo as int, hi as int));
    (lo, hi)
}

/// Reads a colour written `#rrggbb` (hex digits of either case, white space
/// around it ignored) as an opaque colour.
pub fn parse_color(s: &str) -> (c: Option<SerializableColor>)
    requires
        !splits_a_character(s@),
    ensures
        c == parsed_color(s@),
{
    let (lo, hi) = trimmed_range(s);
    let ghost t = s@.subrange(lo as int, hi as int);
    if hi - lo != 7 {
        return None;
    }
    if s.get_char(lo) != '#' {
        return None;
    }
    let r = hex_byte_of(s.get_char(lo + 1), s.get_char(lo + 2));
    let g = hex_byte_of(s.get_char(lo + 3), s.get_char(lo + 4));
    let b = hex_byte_of(s.get_char(lo + 5), s.get_char(lo + 6));
    assert(t[1] == s@[lo + 1] && t[2] == s@[lo + 2] && t[3] == s@[lo + 3]);
    assert(t[4] == s@[lo + 4] && t[5] == s@[lo + 5] && t[6] == s@[lo + 6]);
    match (r, g, b) {
        (Some(r), Some(g), Some(b)) => Some(SerializableColor::new(r, g, b, 255)),
        _ => None,
    }
}

/// The character for hexadecimal digit `d` (below 16), lower case:
/// `0`-`9`, then `a`-`f`.
pub open spec fn lower_hex_char(d: nat) -> char {
    if d < 10 {
        (0x30 + d) as char
    } else {
        (0x61 + d - 10) as char
    }
}

/// The character for hexadecimal digit `d` (below 16), upper case:
/// `0`-`9`, then `A`-`F`.
pub open spec fn upper_hex_char(d: nat) -> char {
    if d < 10 {
        (0x30 + d) as char
    } else {
        (0x41 + d - 10) as char
    }
}

/// Each of the sixteen digit characters, in either case, reads as its
/// value, and no other character reads as a digit: `hex_digit(c)` is
/// `Some(d)` exactly when `c` is the `d`-th character of `0123456789abcdef`
/// or of `0123456789ABCDEF`.
pub proof fn lemma_hex_digit_values(c: char, d: nat)
    requires
        d < 16,
    ensures
        hex_digit(lower_hex_char(d)) == Some(d as u8),
        hex_digit(upper_hex_char(d)) == Some(d as u8),
        hex_digit(c) == Some(d as u8) <==> (c == lower_hex_char(d) || c == upper_hex_char(d)),
{
}

/// A value below 256 written as two hex digits, high one first.
pub open spec fn hex_pair(v: u8, upper: bool) -> Seq<char> {
    if upper {
        seq![upper_hex_char((v / 16) as nat), upper_hex_char((v % 16) as nat)]
    } else {
        seq![lower_hex_char((v / 16) as nat), lower_hex_char((v % 16) as nat)]
    }
}

/// The text `#rrggbb` of a colour, in lower or upper case.
pub open spec fn hex_text(r: u8, g: u8, b: u8, upper: bool) -> Seq<char> {
    seq!['#'] + hex_pair(r, upper) + hex_pair(g, upper) + hex_pair(b, upper)
}

proof fn lemma_hex_pair_reads(v: u8, upper: bool)
    ensures
        hex_byte(hex_pair(v, upper)[0], hex_pair(v, upper)[1]) == Some(v),
        !is_unicode_whitespace(hex_pair(v, upper)[1]),
        hex_pair(v, upper)[0] != '+',
{
    let hi = (v / 16) as nat;
    let lo = (v % 16) as nat;
    lemma_hex_digit_values(' ', hi);
    lemma_hex_digit_values(' ', lo);
    assert(16 * (hi as u8) + (lo as u8) == v);
}

/// Every colour written as `#rrggbb`, in either case, reads back as that
/// colour, opaque.
pub proof fn lemma_hex_text_round_trip(r: u8, g: u8, b: u8, upper: bool)
    ensures
        parsed_color(hex_text(r, g, b, upper)) == Some(rgba(r, g, b, 255)),
{
    let t = hex_text(r, g, b, upper);
    lemma_hex_pair_reads(r, upper);
    lemma_hex_pair_reads(g, upper);
    lemma_hex_pair_reads(b, upper);
    assert(t.len() == 7);
    assert(t[0] == '#');
    assert(t[1] == hex_pair(r, upper)[0] && t[2] == hex_pair(r, upper)[1]);
    assert(t[3] == hex_pair(g, upper)[0] && t[4] == hex_pair(g, upper)[1]);
    assert(t[5] == hex_pair(b, upper)[0] && t[6] == hex_pair(b, upper)[1]);
    assert(!is_unicode_whitespace(t[0]));
    assert(trim_start(t) == t);
    assert(!is_unicode_whitespace(t.last()));
    assert(trim_end(t) == t);
}

} // verus!
