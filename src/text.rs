//! The two textual forms of an offset: the canonical `±H[:MM[:SS]]` form and
//! the compact `±HHMM` form, with a small format language (`%z` for the
//! compact offset, `%%` for a percent sign, any other character as itself)
//! and its parser.
use vstd::prelude::*;

use crate::offset::{option_view, UtcOffset};

verus! {

/// The ASCII digit for `d` in `0..10`.
pub open spec fn digit_char(d: int) -> char {
    seq!['0', '1', '2', '3', '4', '5', '6', '7', '8', '9'][d]
}

/// Whether `c` is an ASCII digit.
pub open spec fn is_digit(c: char) -> bool {
    48 <= c as u32 <= 57
}

/// The value of the ASCII digit `c`.
pub open spec fn digit_value(c: char) -> int {
    c as u32 - 48
}

pub open spec fn abs(s: int) -> int {
    if s < 0 {
        -s
    } else {
        s
    }
}

/// The sign of an offset of `s` seconds: `-` when negative, `+` otherwise
/// (zero included).
pub open spec fn sign_char(s: int) -> char {
    if s < 0 {
        '-'
    } else {
        '+'
    }
}

/// Whole hours in the magnitude of `s` seconds.
pub open spec fn hours_part(s: int) -> int {
    abs(s) / 3600
}

/// Minutes left in the magnitude of `s` after the whole hours.
pub open spec fn minutes_part(s: int) -> int {
    abs(s) % 3600 / 60
}

/// Seconds left in the magnitude of `s` after the whole minutes.
pub open spec fn seconds_part(s: int) -> int {
    abs(s) % 60
}

/// `n` in decimal, with no leading zero.
pub open spec fn decimal(n: nat) -> Seq<char>
    decreases n,
{
    if n < 10 {
        seq![digit_char(n as int)]
    } else {
        decimal(n / 10).push(digit_char((n % 10) as int))
    }
}

/// `n` in `0..100` as exactly two digits.
pub open spec fn two_digits(n: int) -> Seq<char> {
    seq![digit_char(n / 10), digit_char(n % 10)]
}

/// The canonical form of an offset of `s` seconds: sign, hours without
/// padding, then `:MM` when minutes or seconds are nonzero, then `:SS` when
/// seconds are nonzero.
pub open spec fn canonical_text(s: int) -> Seq<char> {
    let head = seq![sign_char(s)] + decimal(hours_part(s) as nat);
    if seconds_part(s) != 0 {
        head + seq![':'] + two_digits(minutes_part(s)) + seq![':'] + two_digits(seconds_part(s))
    } else if minutes_part(s) != 0 {
        head + seq![':'] + two_digits(minutes_part(s))
    } else {
        head
    }
}

/// The compact form of an offset of `s` seconds: sign, two digits of hours,
/// two digits of minutes; seconds are dropped.
pub open spec fn compact_text(s: int) -> Seq<char> {
    seq![sign_char(s)] + two_digits(hours_part(s)) + two_digits(minutes_part(s))
}

/// Whether `fmt`, from position `i` on, holds only directives an offset can
/// fill: `%z`, `%%` and plain characters.
pub open spec fn offset_format_from(fmt: Seq<char>, i: int) -> bool
    decreases fmt.len() - i,
{
    if i < 0 || i >= fmt.len() {
        true
    } else if fmt[i] == '%' {
        i + 1 < fmt.len() && (fmt[i + 1] == 'z' || fmt[i + 1] == '%') && offset_format_from(
            fmt,
            i + 2,
        )
    } else {
        offset_format_from(fmt, i + 1)
    }
}

pub open spec fn offset_format(fmt: Seq<char>) -> bool {
    offset_format_from(fmt, 0)
}

/// `fmt` from position `i` on, rendered for an offset of `s` seconds.
pub open spec fn render_from(fmt: Seq<char>, i: int, s: int) -> Seq<char>
    decreases fmt.len() - i,
{
    if i < 0 || i >= fmt.len() {
        seq![]
    } else if fmt[i] == '%' && i + 1 < fmt.len() && fmt[i + 1] == 'z' {
        compact_text(s) + render_from(fmt, i + 2, s)
    } else if fmt[i] == '%' && i + 1 < fmt.len() && fmt[i + 1] == '%' {
        seq!['%'] + render_from(fmt, i + 2, s)
    } else {
        seq![fmt[i]] + render_from(fmt, i + 1, s)
    }
}

pub open spec fn render(fmt: Seq<char>, s: int) -> Seq<char> {
    render_from(fmt, 0, s)
}

/// Why a text did not parse as an offset.
#[derive(Debug, Clone, Copy, PartialEq, Eq, Structural, Hash)]
pub enum ParseError {
    /// The text at a `%z` was not a sign and four digits of at most 23:59.
    InvalidOffset,
    /// A `%` in the format was not followed by `z` or `%`.
    InvalidFormatSpecifier,
    /// A literal of the format was not matched by the text.
    UnexpectedCharacter { expected: char, actual: char },
    /// The text ended where the format asked for more.
    UnexpectedEndOfString,
    /// The text went on after the format ended.
    UnexpectedTrailingInput,
    /// The format held no `%z`, so no offset was read.
    InsufficientInformation,
}

/// The offset, in seconds, that the five characters of `input` at `j` give
/// as a compact offset, if they are one: a sign, two digits of hours and two
/// of minutes, minutes below 60 and at most 23:59 in all.
pub open spec fn compact_value(input: Seq<char>, j: int) -> Option<int> {
    if 0 <= j && j + 5 <= input.len() && (input[j] == '+' || input[j] == '-') && is_digit(
        input[j + 1],
    ) && is_digit(input[j + 2]) && is_digit(input[j + 3]) && is_digit(input[j + 4]) {
        let h = digit_value(input[j + 1]) * 10 + digit_value(input[j + 2]);
        let m = digit_value(input[j + 3]) * 10 + digit_value(input[j + 4]);
        let minutes = h * 60 + m;
        if m < 60 && minutes <= 1439 {
            Some(
                if input[j] == '-' {
                    -minutes * 60
                } else {
                    minutes * 60
                },
            )
        } else {
            None
        }
    } else {
        None
    }
}

/// Reading `input` from position `j` against `fmt` from position `i`, with
/// `found` the offset read so far (the last `%z` wins).
pub open spec fn parse_from(
    input: Seq<char>,
    fmt: Seq<char>,
    i: int,
    j: int,
    found: Option<int>,
) -> Result<Option<int>, ParseError>
    decreases fmt.len() - i,
{
    if i < 0 || i >= fmt.len() {
        if j < input.len() {
            Err(ParseError::UnexpectedTrailingInput)
        } else {
            Ok(found)
        }
    } else if fmt[i] == '%' && !(i + 1 < fmt.len() && (fmt[i + 1] == 'z' || fmt[i + 1] == '%')) {
        Err(ParseError::InvalidFormatSpecifier)
    } else if fmt[i] == '%' && fmt[i + 1] == 'z' {
        match compact_value(input, j) {
            Some(v) => parse_from(input, fmt, i + 2, j + 5, Some(v)),
            None => Err(ParseError::InvalidOffset),
        }
    } else {
        let expected = fmt[i];
        let next = if expected == '%' {
            i + 2
        } else {
            i + 1
        };
        if j < 0 || j >= input.len() {
            Err(ParseError::UnexpectedEndOfString)
        } else if input[j] != expected {
            Err(ParseError::UnexpectedCharacter { expected, actual: input[j] })
        } else {
            parse_from(input, fmt, next, j + 1, found)
        }
    }
}

/// What parsing `input` against `fmt` gives: the offset in seconds, or the
/// error.
pub open spec fn parse_text(input: Seq<char>, fmt: Seq<char>) -> Result<int, ParseError> {
    match parse_from(input, fmt, 0, 0, None) {
        Ok(Some(v)) => Ok(v),
        Ok(None) => Err(ParseError::InsufficientInformation),
        Err(e) => Err(e),
    }
}

/// `r` is the offset or the error that `m` describes.
pub open spec fn parsed_as(r: Result<UtcOffset, ParseError>, m: Result<int, ParseError>) -> bool {
    match r {
        Ok(o) => m == Ok::<int, ParseError>(o@),
        Err(e) => m == Err::<int, ParseError>(e),
    }
}

proof fn lemma_digit(d: int)
    requires
        0 <= d < 10,
    ensures
        is_digit(digit_char(d)),
        digit_value(digit_char(d)) == d,
{
    assert(seq!['0', '1', '2', '3', '4', '5', '6', '7', '8', '9'][d] as u32 == d + 48);
}

fn push_digit(out: &mut String, d: u32)
    requires
        d < 10,
    ensures
        final(out)@ == old(out)@.push(digit_char(d as int)),
{
    let digits = "0123456789";
    proof {
        reveal_strlit("0123456789");
    }
    out.append(digits.substring_char(d as usize, d as usize + 1));
    assert(final(out)@ =~= old(out)@.push(digit_char(d as int)));
}

fn push_two_digits(out: &mut String, n: u32)
    requires
        n < 100,
    ensures
        final(out)@ == old(out)@ + two_digits(n as int),
{
    push_digit(out, n / 10);
    push_digit(out, n % 10);
    assert(final(out)@ =~= old(out)@ + two_digits(n as int));
}

fn push_char_of(out: &mut String, s: &str, i: usize)
    requires
        i < s@.len(),
        i < usize::MAX,
    ensures
        final(out)@ == old(out)@.push(s@[i as int]),
{
    out.append(s.substring_char(i, i + 1));
    assert(final(out)@ =~= old(out)@.push(s@[i as int]));
}

fn push_sign(out: &mut String, s: i32)
    ensures
        final(out)@ == old(out)@.push(sign_char(s as int)),
{
    let signs = "-+";
    proof {
        reveal_strlit("-+");
    }
    let k: usize = if s < 0 {
        0
    } else {
        1
    };
    push_char_of(out, signs, k);
}

/// Magnitude of an offset, in seconds.
fn magnitude(s: i32) -> (r: u32)
    requires
        -86399 <= s <= 86399,
    ensures
        r == abs(s as int),
{
    if s < 0 {
        (-s) as u32
    } else {
        s as u32
    }
}

fn push_compact(out: &mut String, s: i32)
    requires
        -86399 <= s <= 86399,
    ensures
        final(out)@ == old(out)@ + compact_text(s as int),
{
    let a = magnitude(s);
    push_sign(out, s);
    push_two_digits(out, a / 3600);
    push_two_digits(out, a % 3600 / 60);
    assert(final(out)@ =~= old(out)@ + compact_text(s as int));
}

/// The compact offset that the five characters of `s` at `j` spell, if any.
fn parse_compact(s: &str, n: usize, j: usize) -> (r: Option<UtcOffset>)
    requires
        n == s@.len(),
    ensures
        option_view(r) == compact_value(s@, j as int),
{
    if j > n || n - j < 5 {
        return None;
    }
    let sign = s.get_char(j);
    if sign != '+' && sign != '-' {
        return None;
    }
    let c1 = s.get_char(j + 1) as u32;
    let c2 = s.get_char(j + 2) as u32;
    let c3 = s.get_char(j + 3) as u32;
    let c4 = s.get_char(j + 4) as u32;
    if c1 < 48 || c1 > 57 || c2 < 48 || c2 > 57 || c3 < 48 || c3 > 57 || c4 < 48 || c4 > 57 {
        return None;
    }
    let h = (c1 - 48) * 10 + (c2 - 48);
    let m = (c3 - 48) * 10 + (c4 - 48);
    if m >= 60 || h * 60 + m > 1439 {
        return None;
    }
    let seconds = ((h * 60 + m) * 60) as i32;
    if sign == '-' {
        Some(UtcOffset::seconds_unchecked(-seconds))
    } else {
        Some(UtcOffset::seconds_unchecked(seconds))
    }
}

/// What reading a text against a format gave.
#[derive(Debug, Clone, Copy, PartialEq, Eq, Structural, Hash)]
pub struct ParsedItems {
    /// The last offset read, if the format asked for one.
    pub offset: Option<UtcOffset>,
}

/// Reads `s` against `format` (see [`UtcOffset::parse`]) and collects what
/// was read.
pub fn parse_items(s: &str, format: &str) -> (r: Result<ParsedItems, ParseError>)
    ensures
        match r {
            Ok(items) => parse_from(s@, format@, 0, 0, None) == Ok::<Option<int>, ParseError>(
                option_view(items.offset),
            ),
            Err(e) => parse_from(s@, format@, 0, 0, None) == Err::<Option<int>, ParseError>(e),
        },
{
    let n = s.unicode_len();
    let len = format.unicode_len();
    let mut i: usize = 0;
    let mut j: usize = 0;
    let mut found: Option<UtcOffset> = None;
    while i < len
        invariant
            n == s@.len(),
            len == format@.len(),
            i <= len,
            j <= n,
            parse_from(s@, format@, i as int, j as int, option_view(found)) == parse_from(
                s@,
                format@,
                0,
                0,
                None,
            ),
        decreases len - i,
    {
        let c = format.get_char(i);
        let directive = c == '%';
        if directive {
            if i + 1 >= len {
                return Err(ParseError::InvalidFormatSpecifier);
            }
            let d = format.get_char(i + 1);
            if d == 'z' {
                match parse_compact(s, n, j) {
                    Some(o) => {
                        found = Some(o);
                        j = j + 5;
                        i = i + 2;
                        continue ;
                    },
                    None => {
                        return Err(ParseError::InvalidOffset);
                    },
                }
            } else if d != '%' {
                return Err(ParseError::InvalidFormatSpecifier);
            }
        }
        if j >= n {
            return Err(ParseError::UnexpectedEndOfString);
        }
        let actual = s.get_char(j);
        if actual != c {
            return Err(ParseError::UnexpectedCharacter { expected: c, actual });
        }
        j = j + 1;
        i = if directive {
            i + 2
        } else {
            i + 1
        };
    }
    if j < n {
        return Err(ParseError::UnexpectedTrailingInput);
    }
    Ok(ParsedItems { offset: found })
}

impl UtcOffset {
    /// The canonical form, such as `+1`, `-23:59` or `+0:00:01`.
    pub fn to_string(&self) -> (r: String)
        ensures
            r@ == canonical_text(self@),
    {
        let s = self.as_seconds();
        let a = magnitude(s);
        let h = a / 3600;
        let m = a % 3600 / 60;
        let sec = a % 60;
        let mut out = String::new();
        push_sign(&mut out, s);
        if h >= 10 {
            push_digit(&mut out, h / 10);
        }
        push_digit(&mut out, h % 10);
        proof {
            reveal_with_fuel(decimal, 2);
            assert(out@ =~= seq![sign_char(s as int)] + decimal(h as nat));
        }
        if m != 0 || sec != 0 {
            out.append(":");
            proof {
                reveal_strlit(":");
            }
            push_two_digits(&mut out, m);
        }
        if sec != 0 {
            out.append(":");
            push_two_digits(&mut out, sec);
        }
        assert(out@ =~= canonical_text(self@));
        out
    }

    /// The offset rendered by `format`, whose `%z` becomes the compact form
    /// (such as `+0200`), `%%` a percent sign, and any other character itself.
    pub fn format(self, format: &str) -> (r: String)
        requires
            offset_format(format@),
        ensures
            r@ == render(format@, self@),
    {
        let s = self.as_seconds();
        let n = format.unicode_len();
        let mut out = String::new();
        let mut i: usize = 0;
        while i < n
            invariant
                n == format@.len(),
                i <= n,
                -86399 <= s <= 86399,
                s == self@,
                out@ + render_from(format@, i as int, s as int) == render(format@, self@),
            decreases n - i,
        {
            let c = format.get_char(i);
            if c == '%' && i + 1 < n && format.get_char(i + 1) == 'z' {
                push_compact(&mut out, s);
                assert(out@ + render_from(format@, i + 2, s as int) =~= render(format@, self@));
                i = i + 2;
            } else if c == '%' && i + 1 < n && format.get_char(i + 1) == '%' {
                push_char_of(&mut out, format, i);
                assert(out@ + render_from(format@, i + 2, s as int) =~= render(format@, self@));
                i = i + 2;
            } else {
                push_char_of(&mut out, format, i);
                assert(out@ + render_from(format@, i + 1, s as int) =~= render(format@, self@));
                i = i + 1;
            }
        }
        assert(out@ =~= render(format@, self@));
        out
    }

    /// The offset that `s` spells in `format`: each `%z` reads a compact
    /// offset (the last one read is kept), `%%` reads a percent sign, any other
    /// character reads itself, and the whole text must be read.
    pub fn parse(s: &str, format: &str) -> (r: Result<Self, ParseError>)
        ensures
            parsed_as(r, parse_text(s@, format@)),
    {
        match parse_items(s, format) {
            Ok(items) => UtcOffset::try_from_parsed_items(items),
            Err(e) => Err(e),
        }
    }

    /// The offset among the items read, or `InsufficientInformation` when
    /// none was read.
    pub fn try_from_parsed_items(items: ParsedItems) -> (r: Result<Self, ParseError>)
        ensures
            match items.offset {
                Some(o) => r == Ok::<UtcOffset, ParseError>(o),
                None => r == Err::<UtcOffset, ParseError>(ParseError::InsufficientInformation),
            },
    {
        match items.offset {
            Some(o) => Ok(o),
            None => Err(ParseError::InsufficientInformation),
        }
    }

    /// A deferred rendering of the offset by `format`: nothing is rendered
    /// until it is asked for its text.
    pub fn lazy_format(self, format: &str) -> (r: OffsetFormat)
        requires
            offset_format(format@),
        ensures
            r.offset() == self,
            r.format_spec() == format@,
    {
        OffsetFormat { offset: self, format: String::from_str(format) }
    }
}

/// An offset together with a format for it, rendered on demand.
pub struct OffsetFormat {
    offset: UtcOffset,
    format: String,
}

impl OffsetFormat {
    #[verifier::type_invariant]
    spec fn inv(&self) -> bool {
        offset_format(self.format@)
    }

    /// The offset to render.
    pub closed spec fn offset(&self) -> UtcOffset {
        self.offset
    }

    /// The format to render it by.
    pub closed spec fn format_spec(&self) -> Seq<char> {
        self.format@
    }

    /// The rendered text.
    pub fn to_string(&self) -> (r: String)
        ensures
            r@ == render(self.format_spec(), self.offset()@),
    {
        proof {
            use_type_invariant(self);
        }
        self.offset.format(self.format.as_str())
    }
}

proof fn lemma_digit_char_of(c: char)
    requires
        is_digit(c),
    ensures
        digit_char(digit_value(c)) == c,
{
    let k = digit_value(c);
    lemma_digit(k);
    vstd::utf8::char_u32_cast(c, c as u32);
    vstd::utf8::char_u32_cast(digit_char(k), digit_char(k) as u32);
}

/// The format that holds just the compact offset.
pub open spec fn compact_format() -> Seq<char> {
    seq!['%', 'z']
}

/// An offset of zero, however it was made, renders with a plus sign: `+0`
/// in the canonical form and `+0000` in the compact one.
pub proof fn lemma_zero_renders_positive(x: UtcOffset)
    requires
        x@ == 0,
    ensures
        canonical_text(x@) == seq!['+', '0'],
        compact_text(x@) == seq!['+', '0', '0', '0', '0'],
        render(compact_format(), x@) == seq!['+', '0', '0', '0', '0'],
{
    reveal_with_fuel(decimal, 1);
    assert(canonical_text(x@) =~= seq!['+', '0']);
    assert(compact_text(x@) =~= seq!['+', '0', '0', '0', '0']);
    assert(render_from(compact_format(), 2, x@) =~= seq![]);
    assert(render(compact_format(), x@) =~= seq!['+', '0', '0', '0', '0']);
}

/// Formatting an offset of whole minutes with `%z` and parsing the text back
/// with `%z` gives the offset again.
pub proof fn lemma_format_then_parse(x: UtcOffset)
    requires
        x.wf(),
        x@ % 60 == 0,
    ensures
        parse_text(render(compact_format(), x@), compact_format()) == Ok::<int, ParseError>(x@),
{
    let v = x@;
    let fmt = compact_format();
    let t = compact_text(v);
    reveal_with_fuel(parse_from, 2);
    let h = hours_part(v);
    let m = minutes_part(v);
    assert(render_from(fmt, 2, v) =~= seq![]);
    assert(render(fmt, v) =~= t);
    assert(0 <= h <= 23 && 0 <= m < 60);
    lemma_digit(h / 10);
    lemma_digit(h % 10);
    lemma_digit(m / 10);
    lemma_digit(m % 10);
    assert(t.len() == 5);
    assert(abs(v) == h * 3600 + m * 60);
    assert(compact_value(t, 0) == Some(v));
}

/// A compact offset text, other than the minus-signed zero, is exactly what
/// formatting its value with `%z` gives back.
pub proof fn lemma_parse_then_format(t: Seq<char>, v: int)
    requires
        parse_text(t, compact_format()) == Ok::<int, ParseError>(v),
        !(v == 0 && t[0] == '-'),
    ensures
        render(compact_format(), v) == t,
{
    let fmt = compact_format();
    reveal_with_fuel(parse_from, 2);
    assert(compact_value(t, 0) == Some(v));
    assert(t.len() == 5);
    lemma_digit_char_of(t[1]);
    lemma_digit_char_of(t[2]);
    lemma_digit_char_of(t[3]);
    lemma_digit_char_of(t[4]);
    let h = digit_value(t[1]) * 10 + digit_value(t[2]);
    let m = digit_value(t[3]) * 10 + digit_value(t[4]);
    assert(abs(v) == (h * 60 + m) * 60);
    assert(hours_part(v) == h);
    assert(minutes_part(v) == m);
    assert(render_from(fmt, 2, v) =~= seq![]);
    assert(render(fmt, v) =~= t);
}

} // verus!
