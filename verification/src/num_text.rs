//! Text codec for unsigned 32-bit numbers.
//!
//! Input accepts decimal text, binary text behind a `0b` prefix, or
//! hexadecimal text behind a `0x` prefix; a prefix is only recognized when
//! the text is longer than two characters.  Output is always lowercase
//! hexadecimal behind a `0x` prefix.

use vstd::prelude::*;

verus! {

/// Why a numeric text was rejected.
#[derive(Debug, Clone, Copy, PartialEq, Eq, Structural)]
pub enum NumberParseErrorKind {
    /// The digits to parse were empty.
    Empty,
    /// A character was not a digit of the chosen radix.
    InvalidDigit,
    /// The digits denote a number above `u32::MAX`.
    PosOverflow,
}

/// Rejected numeric text, carrying the full offending text and the cause.
#[derive(Debug, Clone, PartialEq, Eq)]
pub struct NumberParseError {
    /// The text handed to the parser.
    pub text: String,
    /// Why it was rejected.
    pub kind: NumberParseErrorKind,
}

/// Mathematical model of a [`NumberParseError`].
pub ghost struct NumberParseErrorView {
    pub text: Seq<char>,
    pub kind: NumberParseErrorKind,
}

impl View for NumberParseError {
    type V = NumberParseErrorView;

    open spec fn view(&self) -> NumberParseErrorView {
        NumberParseErrorView { text: self.text@, kind: self.kind }
    }
}

/// Value of `c` as a digit of the given radix, as integer parsing from text
/// understands digits: `0-9`, then `a-z` and `A-Z` from ten upward.
pub open spec fn digit_of(c: char, radix: u32) -> Option<u32> {
    let v = c as u32;
    let d = if 48 <= v && v <= 57 {
        Some((v - 48) as u32)
    } else if 97 <= v && v <= 122 {
        Some((v - 87) as u32)
    } else if 65 <= v && v <= 90 {
        Some((v - 55) as u32)
    } else {
        None::<u32>
    };
    match d {
        Some(d) => if d < radix {
            Some(d)
        } else {
            None
        },
        None => None,
    }
}

/// Folds the digits of `s` left to right onto `acc`.  The first failure
/// wins: a non-digit gives `InvalidDigit`, a partial result above
/// `u32::MAX` gives `PosOverflow`.
pub open spec fn scan_u32(s: Seq<char>, radix: u32, acc: u32) -> Result<u32, NumberParseErrorKind>
    decreases s.len(),
{
    if s.len() == 0 {
        Ok(acc)
    } else {
        match digit_of(s[0], radix) {
            None => Err(NumberParseErrorKind::InvalidDigit),
            Some(d) => if acc as nat * radix as nat + d as nat > u32::MAX as nat {
                Err(NumberParseErrorKind::PosOverflow)
            } else {
                scan_u32(s.skip(1), radix, (acc * radix + d) as u32)
            },
        }
    }
}

/// Parses all of `s` as digits of the given radix.
pub open spec fn parse_radix_spec(s: Seq<char>, radix: u32) -> Result<u32, NumberParseErrorKind> {
    if s.len() == 0 {
        Err(NumberParseErrorKind::Empty)
    } else {
        scan_u32(s, radix, 0)
    }
}

/// What parsing a numeric text returns: binary or hexadecimal behind a
/// recognized prefix, decimal otherwise.
pub open spec fn parse_u32_spec(s: Seq<char>) -> Result<u32, NumberParseErrorKind> {
    if s.len() > 2 && s[0] == '0' && s[1] == 'b' {
        parse_radix_spec(s.skip(2), 2)
    } else if s.len() > 2 && s[0] == '0' && s[1] == 'x' {
        parse_radix_spec(s.skip(2), 16)
    } else {
        parse_radix_spec(s, 10)
    }
}

/// Value of `c` as a digit of the given radix, or `None` when `c` is no
/// such digit.
fn digit_value(c: char, radix: u32) -> (r: Option<u32>)
    ensures
        r == digit_of(c, radix),
{
    let v = c as u32;
    let d: Option<u32> = if 48 <= v && v <= 57 {
        Some(v - 48)
    } else if 97 <= v && v <= 122 {
        Some(v - 87)
    } else if 65 <= v && v <= 90 {
        Some(v - 55)
    } else {
        None
    };
    match d {
        Some(d) => if d < radix {
            Some(d)
        } else {
            None
        },
        None => None,
    }
}

/// Parses the characters of `text` from `start` on as digits of the given
/// radix.
fn parse_radix(text: &str, start: usize, radix: u32) -> (r: Result<u32, NumberParseErrorKind>)
    requires
        start <= text@.len(),
        1 < radix <= 36,
    ensures
        r == parse_radix_spec(text@.skip(start as int), radix),
{
    let len = text.unicode_len();
    if start == len {
        return Err(NumberParseErrorKind::Empty);
    }
    let ghost digits = text@.skip(start as int);
    let mut acc: u32 = 0;
    let mut i: usize = start;
    while i < len
        invariant
            start <= i <= len,
            len == text@.len(),
            digits == text@.skip(start as int),
            scan_u32(digits, radix, 0) == scan_u32(text@.skip(i as int), radix, acc),
        decreases len - i,
    {
        let c = text.get_char(i);
        proof {
            assert(text@.skip(i as int)[0] == text@[i as int]);
        }
        match digit_value(c, radix) {
            None => {
                return Err(NumberParseErrorKind::InvalidDigit);
            },
            Some(d) => {
                let shifted = match acc.checked_mul(radix) {
                    Some(m) => m.checked_add(d),
                    None => None,
                };
                match shifted {
                    None => {
                        return Err(NumberParseErrorKind::PosOverflow);
                    },
                    Some(next) => {
                        proof {
                            assert(text@.skip(i as int).skip(1) =~= text@.skip(i as int + 1));
                        }
                        acc = next;
                    },
                }
            },
        }
        i += 1;
    }
    proof {
        assert(text@.skip(len as int) =~= Seq::<char>::empty());
    }
    Ok(acc)
}

/// Parses a numeric text: decimal, or binary/hexadecimal behind a `0b`/`0x`
/// prefix when the text is longer than two characters.  On failure the
/// error carries the whole text and the cause.
pub fn parse_u32(text: &str) -> (r: Result<u32, NumberParseError>)
    ensures
        match r {
            Ok(n) => parse_u32_spec(text@) == Ok::<u32, NumberParseErrorKind>(n),
            Err(e) => parse_u32_spec(text@) == Err::<u32, NumberParseErrorKind>(e@.kind)
                && e@.text == text@,
        },
{
    let len = text.unicode_len();
    let parsed: Result<u32, NumberParseErrorKind> = if len > 2 && text.get_char(0) == '0'
        && text.get_char(1) == 'b' {
        parse_radix(text, 2, 2)
    } else if len > 2 && text.get_char(0) == '0' && text.get_char(1) == 'x' {
        parse_radix(text, 2, 16)
    } else {
        proof {
            assert(text@.skip(0) =~= text@);
        }
        parse_radix(text, 0, 10)
    };
    match parsed {
        Ok(n) => Ok(n),
        Err(kind) => Err(NumberParseError { text: text.to_owned(), kind }),
    }
}

/// The lowercase hexadecimal digit for a value below sixteen.
pub open spec fn hex_char_of(d: u32) -> char {
    if d == 0 {
        '0'
    } else if d == 1 {
        '1'
    } else if d == 2 {
        '2'
    } else if d == 3 {
        '3'
    } else if d == 4 {
        '4'
    } else if d == 5 {
        '5'
    } else if d == 6 {
        '6'
    } else if d == 7 {
        '7'
    } else if d == 8 {
        '8'
    } else if d == 9 {
        '9'
    } else if d == 10 {
        'a'
    } else if d == 11 {
        'b'
    } else if d == 12 {
        'c'
    } else if d == 13 {
        'd'
    } else if d == 14 {
        'e'
    } else {
        'f'
    }
}

/// Lowercase hexadecimal digits of `n`, most significant first, without
/// leading zeros (a single `0` for zero itself).
pub open spec fn hex_repr(n: u32) -> Seq<char>
    decreases n,
{
    if n < 16 {
        seq![hex_char_of(n)]
    } else {
        hex_repr(n / 16) + seq![hex_char_of(n % 16)]
    }
}

/// What formatting a number returns: its lowercase hexadecimal digits
/// behind a `0x` prefix.
pub open spec fn format_u32_spec(n: u32) -> Seq<char> {
    seq!['0', 'x'] + hex_repr(n)
}

/// Appends the lowercase hexadecimal digit for a value below sixteen.
fn push_hex_digit(d: u32, out: &mut String)
    requires
        d < 16,
    ensures
        final(out)@ == old(out)@ + seq![hex_char_of(d)],
{
    proof {
        reveal_strlit("0");
        reveal_strlit("1");
        reveal_strlit("2");
        reveal_strlit("3");
        reveal_strlit("4");
        reveal_strlit("5");
        reveal_strlit("6");
        reveal_strlit("7");
        reveal_strlit("8");
        reveal_strlit("9");
        reveal_strlit("a");
        reveal_strlit("b");
        reveal_strlit("c");
        reveal_strlit("d");
        reveal_strlit("e");
        reveal_strlit("f");
    }
    if d == 0 {
        out.append("0");
    } else if d == 1 {
        out.append("1");
    } else if d == 2 {
        out.append("2");
    } else if d == 3 {
        out.append("3");
    } else if d == 4 {
        out.append("4");
    } else if d == 5 {
        out.append("5");
    } else if d == 6 {
        out.append("6");
    } else if d == 7 {
        out.append("7");
    } else if d == 8 {
        out.append("8");
    } else if d == 9 {
        out.append("9");
    } else if d == 10 {
        out.append("a");
    } else if d == 11 {
        out.append("b");
    } else if d == 12 {
        out.append("c");
    } else if d == 13 {
        out.append("d");
    } else if d == 14 {
        out.append("e");
    } else {
        out.append("f");
    }
    proof {
        assert(final(out)@ =~= old(out)@ + seq![hex_char_of(d)]);
    }
}

/// Appends the hexadecimal digits of `n`, most significant first.
fn push_hex(n: u32, out: &mut String)
    ensures
        final(out)@ == old(out)@ + hex_repr(n),
    decreases n,
{
    if n >= 16 {
        push_hex(n / 16, out);
    }
    push_hex_digit(n % 16, out);
    proof {
        if n >= 16 {
            assert(final(out)@ =~= old(out)@ + hex_repr(n));
        } else {
            assert(n % 16 == n);
            assert(final(out)@ =~= old(out)@ + hex_repr(n));
        }
    }
}

/// The way integer parsing failures print, used to carry the cause inside
/// an error message.
pub open spec fn kind_message(k: NumberParseErrorKind) -> Seq<char> {
    match k {
        NumberParseErrorKind::Empty => "ParseIntError { kind: Empty }"@,
        NumberParseErrorKind::InvalidDigit => "ParseIntError { kind: InvalidDigit }"@,
        NumberParseErrorKind::PosOverflow => "ParseIntError { kind: PosOverflow }"@,
    }
}

/// The printed form of the cause of a numeric parse failure.
pub fn kind_message_text(k: NumberParseErrorKind) -> (r: &'static str)
    ensures
        r@ == kind_message(k),
{
    match k {
        NumberParseErrorKind::Empty => "ParseIntError { kind: Empty }",
        NumberParseErrorKind::InvalidDigit => "ParseIntError { kind: InvalidDigit }",
        NumberParseErrorKind::PosOverflow => "ParseIntError { kind: PosOverflow }",
    }
}

impl NumberParseError {
    /// The error message: it names the offending text and the cause, and
    /// says whether the text was read as decimal alone (at most two
    /// characters) or with a possible radix prefix.
    pub open spec fn message_spec(&self) -> Seq<char> {
        if self.text@.len() > 2 {
            "Failed to parse string ["@ + self.text@
                + "] as a number for CPU template - "@ + kind_message(self.kind)
        } else {
            "Failed to parse string ["@ + self.text@
                + "] as a decimal number for CPU template - "@ + kind_message(self.kind)
        }
    }

    /// Renders the error message.
    pub fn message(&self) -> (r: String)
        ensures
            r@ == self.message_spec(),
    {
        let mut s = String::from_str("Failed to parse string [");
        s.append(self.text.as_str());
        if self.text.as_str().unicode_len() > 2 {
            s.append("] as a number for CPU template - ");
        } else {
            s.append("] as a decimal number for CPU template - ");
        }
        s.append(kind_message_text(self.kind));
        proof {
            assert(s@ =~= self.message_spec());
        }
        s
    }
}

/// Once the digits of `a` fold onto `acc2`, the digits of `a + b` fold as
/// the digits of `b` alone starting from `acc2`.
proof fn lemma_scan_append_ok(a: Seq<char>, b: Seq<char>, radix: u32, acc: u32, acc2: u32)
    requires
        scan_u32(a, radix, acc) == Ok::<u32, NumberParseErrorKind>(acc2),
    ensures
        scan_u32(a + b, radix, acc) == scan_u32(b, radix, acc2),
    decreases a.len(),
{
    if a.len() == 0 {
        assert(a + b =~= b);
    } else {
        let d = digit_of(a[0], radix)->Some_0;
        let next = (acc * radix + d) as u32;
        assert((a + b)[0] == a[0]);
        assert((a + b).skip(1) =~= a.skip(1) + b);
        lemma_scan_append_ok(a.skip(1), b, radix, next, acc2);
    }
}

/// Reading back the hexadecimal digits of `n` gives `n`.
proof fn lemma_scan_hex_repr(n: u32)
    ensures
        scan_u32(hex_repr(n), 16, 0) == Ok::<u32, NumberParseErrorKind>(n),
    decreases n,
{
    if n < 16 {
        let s = hex_repr(n);
        assert(s[0] == hex_char_of(n));
        assert(digit_of(hex_char_of(n), 16) == Some(n));
        assert(s.skip(1) =~= Seq::<char>::empty());
        assert(scan_u32(Seq::<char>::empty(), 16, n) == Ok::<u32, NumberParseErrorKind>(n));
        assert((0 * 16 + n) as u32 == n);
    } else {
        lemma_scan_hex_repr(n / 16);
        lemma_scan_append_ok(hex_repr(n / 16), seq![hex_char_of(n % 16)], 16, 0, n / 16);
        let d = n % 16;
        let s = seq![hex_char_of(d)];
        assert(s[0] == hex_char_of(d));
        assert(digit_of(hex_char_of(d), 16) == Some(d));
        vstd::arithmetic::div_mod::lemma_fundamental_div_mod(n as int, 16);
        assert((n / 16) as nat * 16 + d as nat == n);
        assert(((n / 16) * 16 + d) as u32 == n);
        assert(s.skip(1) =~= Seq::<char>::empty());
        assert(scan_u32(Seq::<char>::empty(), 16, n) == Ok::<u32, NumberParseErrorKind>(n));
    }
}

/// Formatting a number and parsing the text back returns the number: the
/// hexadecimal output always carries its `0x` prefix and at least one
/// digit, so the parser takes the hexadecimal branch.
pub proof fn lemma_format_parse_round_trip(n: u32)
    ensures
        parse_u32_spec(format_u32_spec(n)) == Ok::<u32, NumberParseErrorKind>(n),
{
    let s = format_u32_spec(n);
    assert(hex_repr(n).len() >= 1) by {
        if n >= 16 {
            lemma_hex_repr_len(n);
        }
    }
    assert(s.len() > 2);
    assert(s[0] == '0');
    assert(s[1] == 'x');
    assert(s.skip(2) =~= hex_repr(n));
    lemma_scan_hex_repr(n);
}

/// The hexadecimal digit sequence is never empty.
proof fn lemma_hex_repr_len(n: u32)
    ensures
        hex_repr(n).len() >= 1,
    decreases n,
{
    if n >= 16 {
        lemma_hex_repr_len(n / 16);
    }
}

/// Formats a number as lowercase hexadecimal text behind a `0x` prefix.
pub fn format_u32(n: u32) -> (r: String)
    ensures
        r@ == format_u32_spec(n),
{
    proof {
        reveal_strlit("0x");
    }
    let mut out = String::from_str("0x");
    proof {
        assert(out@ =~= seq!['0', 'x']);
    }
    push_hex(n, &mut out);
    out
}

} // verus!
