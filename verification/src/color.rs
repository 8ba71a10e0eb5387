//! Textual color tokens and their parsing.
//!
//! A color token is one of: the literal `"default"`, an indexed palette color
//! `"C16(<n>)"` with `n` in `0..=255`, or a 24-bit hex color `"#RRGGBB"` /
//! bare `"RRGGBB"`.

use vstd::prelude::*;
use vstd::string::StrSliceExecFns;

verus! {

/// A concrete terminal color: inherit the terminal's own color, one of the
/// 256 standard palette slots, or a 24-bit truecolor value `0xRRGGBB`.
#[derive(Clone, Copy, Debug, PartialEq, Eq, Structural)]
pub enum Color {
    Default,
    C16(u8),
    Hex(u32),
}

impl Default for Color {
    fn default() -> (r: Self)
        ensures
            r == Color::Default,
    {
        Color::Default
    }
}

/// Why a color token was rejected; each variant carries the offending token.
#[derive(Debug)]
pub enum ParseError {
    /// A `C16(...)` token whose payload is not an unsigned 8-bit integer.
    InvalidIndexed(String),
    /// A hex-shaped token whose digits are not a valid 6-digit hex number.
    InvalidHex(String),
    /// A token matching none of the recognized shapes.
    UnknownFormat(String),
}

/// The shape of a [`ParseError`], without the token it carries.
#[derive(Clone, Copy, Debug, PartialEq, Eq, Structural)]
pub enum ParseErrorKind {
    InvalidIndexed,
    InvalidHex,
    UnknownFormat,
}

impl ParseError {
    /// Which of the three rejection shapes this error is.
    pub open spec fn kind(self) -> ParseErrorKind {
        match self {
            ParseError::InvalidIndexed(_) => ParseErrorKind::InvalidIndexed,
            ParseError::InvalidHex(_) => ParseErrorKind::InvalidHex,
            ParseError::UnknownFormat(_) => ParseErrorKind::UnknownFormat,
        }
    }

    /// The token the error was raised for.
    pub open spec fn token(self) -> Seq<char> {
        match self {
            ParseError::InvalidIndexed(t) => t@,
            ParseError::InvalidHex(t) => t@,
            ParseError::UnknownFormat(t) => t@,
        }
    }
}

/// Is `c` a decimal digit?
pub open spec fn is_dec_digit(c: char) -> bool {
    '0' <= c && c <= '9'
}

/// Numeric value of a decimal digit.
pub open spec fn dec_val(c: char) -> nat {
    (c as nat - '0' as nat) as nat
}

/// Is `c` a hexadecimal digit (either case)?
pub open spec fn is_hex_digit(c: char) -> bool {
    ('0' <= c && c <= '9') || ('a' <= c && c <= 'f') || ('A' <= c && c <= 'F')
}

/// Numeric value of a hexadecimal digit.
pub open spec fn hex_val(c: char) -> nat {
    if '0' <= c && c <= '9' {
        (c as nat - '0' as nat) as nat
    } else if 'a' <= c && c <= 'f' {
        (c as nat - 'a' as nat + 10) as nat
    } else {
        (c as nat - 'A' as nat + 10) as nat
    }
}

/// The number denoted by `t` read as decimal digits, most significant first.
pub open spec fn dec_value(t: Seq<char>) -> nat
    decreases t.len(),
{
    if t.len() == 0 {
        0
    } else {
        dec_value(t.drop_last()) * 10 + dec_val(t.last())
    }
}

/// The number denoted by `t` read as hexadecimal digits, most significant first.
pub open spec fn hex_value(t: Seq<char>) -> nat
    decreases t.len(),
{
    if t.len() == 0 {
        0
    } else {
        hex_value(t.drop_last()) * 16 + hex_val(t.last())
    }
}

/// Does the token begin with the indexed-color prefix `"C16("`?
pub open spec fn spec_starts_with_c16(t: Seq<char>) -> bool {
    t.len() >= 4 && t.subrange(0, 4) == "C16("@
}

/// The token with every leading `"C16("` removed, as `str::trim_start_matches`
/// leaves it.
pub open spec fn spec_strip_c16(t: Seq<char>) -> Seq<char>
    decreases t.len(),
{
    if spec_starts_with_c16(t) {
        spec_strip_c16(t.skip(4))
    } else {
        t
    }
}

/// The token with every trailing `')'` removed, as `str::trim_end_matches`
/// leaves it.
pub open spec fn spec_strip_close(t: Seq<char>) -> Seq<char>
    decreases t.len(),
{
    if t.len() > 0 && t.last() == ')' {
        spec_strip_close(t.drop_last())
    } else {
        t
    }
}

/// The payload of an indexed-color token: leading `"C16("` occurrences and
/// trailing `')'` characters stripped.
pub open spec fn c16_payload(t: Seq<char>) -> Seq<char> {
    spec_strip_close(spec_strip_c16(t))
}

/// The digit part of an unsigned decimal numeral: an optional leading `'+'`
/// stripped.
pub open spec fn u8_digits(t: Seq<char>) -> Seq<char> {
    if t.len() > 0 && t[0] == '+' {
        t.skip(1)
    } else {
        t
    }
}

/// The value a pure digit string denotes, if it is one or more decimal digits
/// denoting at most 255.
pub open spec fn spec_parse_dec_digits(d: Seq<char>) -> Option<u8> {
    if d.len() > 0 && (forall|i: int| 0 <= i < d.len() ==> is_dec_digit(d[i])) && dec_value(d)
        <= 255 {
        Some(dec_value(d) as u8)
    } else {
        None
    }
}

/// The value `t` denotes as an unsigned 8-bit decimal integer: an optional
/// leading `'+'`, then one or more decimal digits, denoting at most 255.
pub open spec fn spec_parse_u8(t: Seq<char>) -> Option<u8> {
    spec_parse_dec_digits(u8_digits(t))
}

/// Is the token routed to the hex rule: it begins with `'#'`, or its raw
/// length is exactly 6 (bare hex heuristic)?
pub open spec fn spec_is_hex_shaped(t: Seq<char>) -> bool {
    (t.len() > 0 && t[0] == '#') || t.len() == 6
}

/// The hex digits of the token: an optional leading `'#'` stripped.
pub open spec fn spec_hex_body(t: Seq<char>) -> Seq<char> {
    if t.len() > 0 && t[0] == '#' {
        t.skip(1)
    } else {
        t
    }
}

/// The value `t` denotes as a 24-bit hex color: exactly 6 hex digits.
pub open spec fn spec_parse_hex(t: Seq<char>) -> Option<u32> {
    if t.len() == 6 && (forall|i: int| 0 <= i < t.len() ==> is_hex_digit(t[i])) {
        Some(hex_value(t) as u32)
    } else {
        None
    }
}

/// The complete parsing function on tokens: the four dispatch rules in order,
/// first match wins, with the error shape each failing rule raises.
pub open spec fn spec_parse_color(t: Seq<char>) -> Result<Color, ParseErrorKind> {
    if t == "default"@ {
        Ok(Color::Default)
    } else if spec_starts_with_c16(t) {
        match spec_parse_u8(c16_payload(t)) {
            Some(n) => Ok(Color::C16(n)),
            None => Err(ParseErrorKind::InvalidIndexed),
        }
    } else if spec_is_hex_shaped(t) {
        match spec_parse_hex(spec_hex_body(t)) {
            Some(v) => Ok(Color::Hex(v)),
            None => Err(ParseErrorKind::InvalidHex),
        }
    } else {
        Err(ParseErrorKind::UnknownFormat)
    }
}

/// A token of raw length 6 that is not a valid hex numeral is routed to the
/// hex rule by the bare-hex heuristic and rejected there: it fails as an
/// invalid hex color, never as an unknown format. Tokens carrying the
/// indexed-color prefix (such as `"C16(9x"`) are dispatched earlier and are
/// exempt.
pub proof fn lemma_six_char_non_hex_is_invalid_hex(t: Seq<char>)
    requires
        t.len() == 6,
        spec_parse_hex(t) is None,
        !spec_starts_with_c16(t),
    ensures
        spec_parse_color(t) == Err::<Color, ParseErrorKind>(ParseErrorKind::InvalidHex),
{
    reveal_strlit("default");
    assert(t != "default"@);
    assert(spec_is_hex_shaped(t));
    if t.len() > 0 && t[0] == '#' {
        assert(spec_hex_body(t) == t.skip(1));
        assert(t.skip(1).len() == 5);
        assert(spec_parse_hex(spec_hex_body(t)) is None);
    } else {
        assert(spec_hex_body(t) == t);
    }
}

/// Reading more digits never shrinks the denoted value.
proof fn lemma_dec_value_prefix(t: Seq<char>, i: int)
    requires
        0 <= i <= t.len(),
    ensures
        dec_value(t.subrange(0, i)) <= dec_value(t),
    decreases t.len(),
{
    if i == t.len() {
        assert(t.subrange(0, i) =~= t);
    } else {
        lemma_dec_value_prefix(t.drop_last(), i);
        assert(t.drop_last().subrange(0, i) =~= t.subrange(0, i));
    }
}

/// `pow16(n)` is `16^n`.
spec fn pow16(n: nat) -> nat
    decreases n,
{
    if n == 0 {
        1
    } else {
        16 * pow16((n - 1) as nat)
    }
}

/// `pow16` grows with its argument.
proof fn lemma_pow16_mono(a: nat, b: nat)
    requires
        a <= b,
    ensures
        pow16(a) <= pow16(b),
    decreases b,
{
    if a < b {
        lemma_pow16_mono(a, (b - 1) as nat);
        assert(pow16(b) == 16 * pow16((b - 1) as nat));
        assert(pow16((b - 1) as nat) >= 1) by {
            lemma_pow16_mono(0, (b - 1) as nat);
        }
    }
}

/// A string of `n` hex digits denotes a value below `16^n`.
proof fn lemma_hex_value_bound(t: Seq<char>)
    requires
        forall|i: int| 0 <= i < t.len() ==> is_hex_digit(t[i]),
    ensures
        hex_value(t) < pow16(t.len()),
    decreases t.len(),
{
    if t.len() > 0 {
        lemma_hex_value_bound(t.drop_last());
    }
}

/// Collects the characters of `s` into a vector.
#[verifier::loop_isolation(false)]
fn str_chars(s: &str) -> (r: Vec<char>)
    ensures
        r@ == s@,
{
    let n = s.unicode_len();
    let mut cs: Vec<char> = Vec::new();
    let mut i: usize = 0;
    while i < n
        invariant
            i <= n,
            n == s@.len(),
            cs@ == s@.subrange(0, i as int),
        decreases n - i,
    {
        cs.push(s.get_char(i));
        assert(cs@ =~= s@.subrange(0, (i + 1) as int));
        i += 1;
    }
    assert(cs@ =~= s@);
    cs
}

/// Parses `cs[lo..hi]` as an unsigned 8-bit decimal integer, exactly as
/// [`spec_parse_u8`] describes.
#[verifier::loop_isolation(false)]
fn parse_u8_range(cs: &Vec<char>, lo: usize, hi: usize) -> (r: Option<u8>)
    requires
        lo <= hi <= cs@.len(),
    ensures
        r == spec_parse_u8(cs@.subrange(lo as int, hi as int)),
{
    let ghost t = cs@.subrange(lo as int, hi as int);
    let mut p: usize = lo;
    if lo < hi && cs[lo] == '+' {
        p = lo + 1;
    }
    let ghost d = cs@.subrange(p as int, hi as int);
    proof {
        assert(t.len() > 0 ==> t[0] == cs@[lo as int]);
        assert(u8_digits(t) =~= d);
        assert(spec_parse_u8(t) == spec_parse_dec_digits(d));
    }
    if p == hi {
        return None;
    }
    let mut acc: u32 = 0;
    let mut j: usize = p;
    while j < hi
        invariant
            p <= j <= hi <= cs@.len(),
            d == cs@.subrange(p as int, hi as int),
            forall|i: int| p <= i < j ==> is_dec_digit(cs@[i]),
            acc == dec_value(cs@.subrange(p as int, j as int)),
            acc <= 255,
        decreases hi - j,
    {
        let c = cs[j];
        if !(c >= '0' && c <= '9') {
            proof {
                assert(d[(j - p) as int] == cs@[j as int]);
                assert(!is_dec_digit(d[(j - p) as int]));
                assert(spec_parse_dec_digits(d) is None);
            }
            return None;
        }
        let v: u32 = (c as u32) - ('0' as u32);
        let next: u32 = acc * 10 + v;
        proof {
            assert(cs@.subrange(p as int, (j + 1) as int).drop_last() =~= cs@.subrange(
                p as int,
                j as int,
            ));
            assert(cs@.subrange(p as int, (j + 1) as int).last() == cs@[j as int]);
            assert(dec_val(cs@[j as int]) == v);
            assert(dec_value(cs@.subrange(p as int, (j + 1) as int)) == acc * 10 + v);
        }
        if next > 255 {
            proof {
                assert(d.subrange(0, (j + 1 - p) as int) =~= cs@.subrange(
                    p as int,
                    (j + 1) as int,
                ));
                lemma_dec_value_prefix(d, (j + 1 - p) as int);
                assert(dec_value(d) > 255);
                assert(spec_parse_dec_digits(d) is None);
            }
            return None;
        }
        acc = next;
        j += 1;
    }
    proof {
        assert(cs@.subrange(p as int, j as int) =~= d);
        assert(dec_value(d) == acc);
        assert forall|i: int| 0 <= i < d.len() implies is_dec_digit(d[i]) by {
            assert(d[i] == cs@[p + i]);
        }
        assert(spec_parse_dec_digits(d) == Some(acc as u8));
    }
    Some(acc as u8)
}

/// Parses `cs[lo..]` as exactly 6 hex digits, exactly as [`spec_parse_hex`]
/// describes.
#[verifier::loop_isolation(false)]
fn parse_hex_range(cs: &Vec<char>, lo: usize) -> (r: Option<u32>)
    requires
        lo <= cs@.len(),
    ensures
        r == spec_parse_hex(cs@.subrange(lo as int, cs@.len() as int)),
{
    let ghost t = cs@.subrange(lo as int, cs@.len() as int);
    let n = cs.len();
    if n - lo != 6 {
        return None;
    }
    let mut acc: u32 = 0;
    let mut j: usize = lo;
    while j < n
        invariant
            lo <= j <= n == cs@.len(),
            n - lo == 6,
            t == cs@.subrange(lo as int, n as int),
            forall|i: int| lo <= i < j ==> is_hex_digit(cs@[i]),
            acc == hex_value(cs@.subrange(lo as int, j as int)),
        decreases n - j,
    {
        let c = cs[j];
        let v: u32;
        if c >= '0' && c <= '9' {
            v = (c as u32) - ('0' as u32);
        } else if c >= 'a' && c <= 'f' {
            v = (c as u32) - ('a' as u32) + 10;
        } else if c >= 'A' && c <= 'F' {
            v = (c as u32) - ('A' as u32) + 10;
        } else {
            proof {
                assert(t[(j - lo) as int] == cs@[j as int]);
                assert(!is_hex_digit(t[(j - lo) as int]));
                assert(spec_parse_hex(t) is None);
            }
            return None;
        }
        proof {
            lemma_hex_value_bound(cs@.subrange(lo as int, j as int));
            lemma_pow16_mono((j - lo) as nat, 5);
            assert(pow16(5) == 1048576) by {
                reveal_with_fuel(pow16, 7);
            }
            assert(acc < 1048576);
            assert(cs@.subrange(lo as int, (j + 1) as int).drop_last() =~= cs@.subrange(
                lo as int,
                j as int,
            ));
            assert(cs@.subrange(lo as int, (j + 1) as int).last() == cs@[j as int]);
            assert(hex_val(cs@[j as int]) == v);
            assert(hex_value(cs@.subrange(lo as int, (j + 1) as int)) == acc * 16 + v);
        }
        acc = acc * 16 + v;
        j += 1;
    }
    proof {
        assert(cs@.subrange(lo as int, j as int) =~= t);
        assert(hex_value(t) == acc);
        assert forall|i: int| 0 <= i < t.len() implies is_hex_digit(t[i]) by {
            assert(t[i] == cs@[lo + i]);
        }
        assert(spec_parse_hex(t) == Some(acc));
    }
    Some(acc)
}

/// Index just past the leading `"C16("` prefixes of `cs`, as
/// `str::trim_start_matches("C16(")` would strip them.
#[verifier::loop_isolation(false)]
fn strip_c16_prefix(cs: &Vec<char>) -> (lo: usize)
    ensures
        lo <= cs@.len(),
        spec_strip_c16(cs@) == cs@.skip(lo as int),
{
    proof {
        reveal_strlit("C16(");
        assert(cs@.skip(0) =~= cs@);
    }
    let n = cs.len();
    let mut lo: usize = 0;
    while n - lo >= 4 && cs[lo] == 'C' && cs[lo + 1] == '1' && cs[lo + 2] == '6' && cs[lo + 3]
        == '('
        invariant
            lo <= n == cs@.len(),
            spec_strip_c16(cs@) == spec_strip_c16(cs@.skip(lo as int)),
        decreases n - lo,
    {
        proof {
            assert(cs@.skip(lo as int).subrange(0, 4) =~= "C16("@);
            assert(spec_starts_with_c16(cs@.skip(lo as int)));
            assert(cs@.skip(lo as int).skip(4) =~= cs@.skip((lo + 4) as int));
        }
        lo = lo + 4;
    }
    proof {
        let rest = cs@.skip(lo as int);
        if spec_starts_with_c16(rest) {
            assert(rest.subrange(0, 4)[0] == rest[0] == cs@[lo as int]);
            assert(rest.subrange(0, 4)[1] == rest[1] == cs@[(lo + 1) as int]);
            assert(rest.subrange(0, 4)[2] == rest[2] == cs@[(lo + 2) as int]);
            assert(rest.subrange(0, 4)[3] == rest[3] == cs@[(lo + 3) as int]);
            assert(("C16("@)[0] == 'C' && ("C16("@)[1] == '1' && ("C16("@)[2] == '6' && (
            "C16("@)[3] == '(');
            assert(false);
        }
        assert(spec_strip_c16(rest) == rest);
    }
    lo
}

/// Index at the start of the trailing `')'` run of `cs[lo..]`, as
/// `str::trim_end_matches(')')` would strip it.
#[verifier::loop_isolation(false)]
fn strip_close_suffix(cs: &Vec<char>, lo: usize) -> (hi: usize)
    requires
        lo <= cs@.len(),
    ensures
        lo <= hi <= cs@.len(),
        spec_strip_close(cs@.skip(lo as int)) == cs@.subrange(lo as int, hi as int),
{
    let n = cs.len();
    proof {
        assert(cs@.skip(lo as int) =~= cs@.subrange(lo as int, n as int));
    }
    let mut hi: usize = n;
    while hi > lo && cs[hi - 1] == ')'
        invariant
            lo <= hi <= n == cs@.len(),
            spec_strip_close(cs@.skip(lo as int)) == spec_strip_close(
                cs@.subrange(lo as int, hi as int),
            ),
        decreases hi,
    {
        proof {
            let cur = cs@.subrange(lo as int, hi as int);
            assert(cur.last() == cs@[(hi - 1) as int]);
            assert(cur.drop_last() =~= cs@.subrange(lo as int, (hi - 1) as int));
        }
        hi = hi - 1;
    }
    proof {
        let cur = cs@.subrange(lo as int, hi as int);
        if cur.len() > 0 {
            assert(cur.last() == cs@[(hi - 1) as int]);
        }
        assert(spec_strip_close(cur) == cur);
    }
    hi
}

impl Color {
    /// Parses a color token. The four dispatch rules are evaluated in order,
    /// first match wins: the literal `"default"`; a `"C16(<n>)"` indexed
    /// color; a `'#'`-prefixed or bare-6-character hex color; anything else
    /// is an unknown format. Each error carries the offending token.
    pub fn from_str(s: &str) -> (r: Result<Color, ParseError>)
        ensures
            match spec_parse_color(s@) {
                Ok(c) => r == Ok::<Color, ParseError>(c),
                Err(k) => r matches Err(e) && e.kind() == k && e.token() == s@,
            },
    {
        proof {
            reveal_strlit("default");
            reveal_strlit("C16(");
        }
        let cs = str_chars(s);
        let n = cs.len();
        if n == 7 && cs[0] == 'd' && cs[1] == 'e' && cs[2] == 'f' && cs[3] == 'a' && cs[4] == 'u'
            && cs[5] == 'l' && cs[6] == 't' {
            assert(s@ =~= "default"@);
            return Ok(Color::Default);
        }
        assert(s@ != "default"@);
        if n >= 4 && cs[0] == 'C' && cs[1] == '1' && cs[2] == '6' && cs[3] == '(' {
            assert(s@.subrange(0, 4) =~= "C16("@);
            let lo = strip_c16_prefix(&cs);
            let hi = strip_close_suffix(&cs, lo);
            assert(c16_payload(s@) == s@.subrange(lo as int, hi as int));
            match parse_u8_range(&cs, lo, hi) {
                Some(v) => {
                    return Ok(Color::C16(v));
                },
                None => {
                    return Err(ParseError::InvalidIndexed(s.to_owned()));
                },
            }
        }
        proof {
            if spec_starts_with_c16(s@) {
                assert(s@.subrange(0, 4)[0] == s@[0] && s@.subrange(0, 4)[1] == s@[1]
                    && s@.subrange(0, 4)[2] == s@[2] && s@.subrange(0, 4)[3] == s@[3]);
                assert(("C16("@)[0] == 'C' && ("C16("@)[1] == '1' && ("C16("@)[2] == '6' && (
                "C16("@)[3] == '(');
                assert(false);
            }
        }
        if n > 0 && cs[0] == '#' {
            proof {
                assert(s@.skip(1) =~= s@.subrange(1, s@.len() as int));
            }
            match parse_hex_range(&cs, 1) {
                Some(v) => {
                    return Ok(Color::Hex(v));
                },
                None => {
                    return Err(ParseError::InvalidHex(s.to_owned()));
                },
            }
        }
        if n == 6 {
            proof {
                assert(s@.skip(0) =~= s@.subrange(0, s@.len() as int));
                assert(s@ =~= s@.subrange(0, s@.len() as int));
            }
            match parse_hex_range(&cs, 0) {
                Some(v) => {
                    return Ok(Color::Hex(v));
                },
                None => {
                    return Err(ParseError::InvalidHex(s.to_owned()));
                },
            }
        }
        Err(ParseError::UnknownFormat(s.to_owned()))
    }
}

} // verus!
