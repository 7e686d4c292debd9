//! Wildcard bit-string codec for [`RegisterValueFilter`].
//!
//! A bitmap text spells register bits most significant first: `0` and `1`
//! pin a bit to that value, `x` marks a don't-care bit.  Decoding strips an
//! optional `0b` prefix and is width-agnostic; encoding always emits a `0b`
//! prefix followed by exactly the requested number of characters.

use vstd::arithmetic::div_mod::lemma_basic_div;
use vstd::arithmetic::div_mod::lemma_div_denominator;
use vstd::arithmetic::div_mod::lemma_fundamental_div_mod;
use vstd::arithmetic::power2::lemma2_to64;
use vstd::arithmetic::power2::lemma2_to64_rest;
use vstd::arithmetic::power2::lemma_pow2_adds;
use vstd::arithmetic::power2::lemma_pow2_pos;
use vstd::arithmetic::power2::lemma_pow2_strictly_increases;
use vstd::arithmetic::power2::pow2;
use vstd::bits::lemma_u64_shr_is_div;
use vstd::prelude::*;

use crate::num_text::kind_message;
use crate::num_text::kind_message_text;
use crate::num_text::NumberParseErrorKind;
use crate::template::RegisterValueFilter;

verus! {

/// Rejected bitmap text, carrying the offending text with any `0b` prefix
/// already stripped, and the cause.
#[derive(Debug, Clone, PartialEq, Eq)]
pub struct BitmapParseError {
    /// The bitmap text after the optional prefix strip.
    pub text: String,
    /// Why it was rejected.
    pub kind: NumberParseErrorKind,
}

/// Mathematical model of a [`BitmapParseError`].
pub ghost struct BitmapParseErrorView {
    pub text: Seq<char>,
    pub kind: NumberParseErrorKind,
}

impl View for BitmapParseError {
    type V = BitmapParseErrorView;

    open spec fn view(&self) -> BitmapParseErrorView {
        BitmapParseErrorView { text: self.text@, kind: self.kind }
    }
}

impl BitmapParseError {
    /// The error message: it names the offending text (without the `0b`
    /// prefix) and the cause.
    pub open spec fn message_spec(&self) -> Seq<char> {
        "Failed to parse string ["@ + self.text@ + "] as a bitmap - "@ + kind_message(self.kind)
    }

    /// Renders the error message.
    pub fn message(&self) -> (r: String)
        ensures
            r@ == self.message_spec(),
    {
        let mut s = String::from_str("Failed to parse string [");
        s.append(self.text.as_str());
        s.append("] as a bitmap - ");
        s.append(kind_message_text(self.kind));
        proof {
            assert(s@ =~= self.message_spec());
        }
        s
    }
}

/// The characters a bitmap may hold after its prefix.
pub open spec fn bitmap_char_ok(c: char) -> bool {
    c == '0' || c == '1' || c == 'x'
}

/// Whether every character of `s` is a bitmap character.
pub open spec fn bitmap_chars_ok(s: Seq<char>) -> bool {
    forall|i: int| 0 <= i < s.len() ==> bitmap_char_ok(#[trigger] s[i])
}

/// Filter bit described by one character: set unless the bit is don't-care.
pub open spec fn filter_bit_of(c: char) -> nat {
    if c == 'x' {
        0
    } else {
        1
    }
}

/// Value bit described by one character: set exactly for `1`.
pub open spec fn value_bit_of(c: char) -> nat {
    if c == '1' {
        1
    } else {
        0
    }
}

/// The filter bits of `s` read as a binary number, most significant first.
pub open spec fn filter_bits(s: Seq<char>) -> nat
    decreases s.len(),
{
    if s.len() == 0 {
        0
    } else {
        filter_bits(s.drop_last()) * 2 + filter_bit_of(s.last())
    }
}

/// The value bits of `s` read as a binary number, most significant first.
pub open spec fn value_bits(s: Seq<char>) -> nat
    decreases s.len(),
{
    if s.len() == 0 {
        0
    } else {
        value_bits(s.drop_last()) * 2 + value_bit_of(s.last())
    }
}

/// `s` without its leading `0b`, when it has one.
pub open spec fn strip_bitmap_prefix(s: Seq<char>) -> Seq<char> {
    if s.len() >= 2 && s[0] == '0' && s[1] == 'b' {
        s.skip(2)
    } else {
        s
    }
}

/// What decoding the stripped bitmap text `t` returns.  Empty text and text
/// with a character outside the bitmap alphabet are rejected, as is text
/// whose filter bits do not fit in 64 bits; otherwise the filter and value
/// bits are read off as binary numbers.
pub open spec fn decode_bitmap_spec(t: Seq<char>) -> Result<
    RegisterValueFilter,
    NumberParseErrorKind,
> {
    if t.len() == 0 {
        Err(NumberParseErrorKind::Empty)
    } else if !bitmap_chars_ok(t) {
        Err(NumberParseErrorKind::InvalidDigit)
    } else if filter_bits(t) > u64::MAX as nat {
        Err(NumberParseErrorKind::PosOverflow)
    } else {
        Ok(
            RegisterValueFilter {
                filter: filter_bits(t) as u64,
                value: value_bits(t) as u64,
            },
        )
    }
}

/// The bit numbers only grow as more characters are read.
proof fn lemma_bits_mono(s: Seq<char>, j: int)
    requires
        0 <= j <= s.len(),
    ensures
        filter_bits(s.take(j)) <= filter_bits(s),
        value_bits(s.take(j)) <= value_bits(s),
    decreases s.len() - j,
{
    if j == s.len() {
        assert(s.take(j) =~= s);
    } else {
        lemma_bits_mono(s, j + 1);
        assert(s.take(j + 1).drop_last() =~= s.take(j));
        assert(s.take(j + 1).last() == s[j]);
    }
}

/// Decodes a wildcard bitmap text into its filter/value pair, stripping an
/// optional `0b` prefix first.  The error carries the stripped text.
pub fn decode_bitmap(text: &str) -> (r: Result<RegisterValueFilter, BitmapParseError>)
    ensures
        match r {
            Ok(fv) => decode_bitmap_spec(strip_bitmap_prefix(text@)) == Ok::<
                RegisterValueFilter,
                NumberParseErrorKind,
            >(fv),
            Err(e) => decode_bitmap_spec(strip_bitmap_prefix(text@)) == Err::<
                RegisterValueFilter,
                NumberParseErrorKind,
            >(e@.kind) && e@.text == strip_bitmap_prefix(text@),
        },
{
    let len = text.unicode_len();
    let start: usize = if len >= 2 && text.get_char(0) == '0' && text.get_char(1) == 'b' {
        2
    } else {
        0
    };
    let ghost t = strip_bitmap_prefix(text@);
    proof {
        assert(t =~= text@.skip(start as int));
    }
    if start == len {
        return Err(BitmapParseError { text: String::new(), kind: NumberParseErrorKind::Empty });
    }
    let mut i: usize = start;
    while i < len
        invariant
            start <= i <= len,
            len == text@.len(),
            t == strip_bitmap_prefix(text@),
            t == text@.skip(start as int),
            forall|j: int| 0 <= j < i - start ==> bitmap_char_ok(#[trigger] t[j]),
        decreases len - i,
    {
        let c = text.get_char(i);
        proof {
            assert(t[i - start] == text@[i as int]);
        }
        if !(c == '0' || c == '1' || c == 'x') {
            proof {
                assert(text@.subrange(start as int, len as int) =~= t);
                assert(!bitmap_char_ok(t[i - start]));
            }
            return Err(
                BitmapParseError {
                    text: text.substring_char(start, len).to_owned(),
                    kind: NumberParseErrorKind::InvalidDigit,
                },
            );
        }
        i += 1;
    }
    let mut filter: u64 = 0;
    let mut value: u64 = 0;
    let mut i: usize = start;
    while i < len
        invariant
            start <= i <= len,
            len == text@.len(),
            t == strip_bitmap_prefix(text@),
            t == text@.skip(start as int),
            bitmap_chars_ok(t),
            filter as nat == filter_bits(t.take(i - start)),
            value as nat == value_bits(t.take(i - start)),
            value <= filter,
        decreases len - i,
    {
        let c = text.get_char(i);
        proof {
            assert(t[i - start] == text@[i as int]);
        }
        let fb: u64 = if c == 'x' {
            0
        } else {
            1
        };
        let vb: u64 = if c == '1' {
            1
        } else {
            0
        };
        proof {
            assert(t.take(i - start + 1).drop_last() =~= t.take(i - start));
            assert(t.take(i - start + 1).last() == t[i - start]);
        }
        if filter >= 0x8000000000000000 {
            proof {
                lemma_bits_mono(t, i - start + 1);
                assert(filter_bits(t) > u64::MAX as nat);
                assert(text@.subrange(start as int, len as int) =~= t);
            }
            return Err(
                BitmapParseError {
                    text: text.substring_char(start, len).to_owned(),
                    kind: NumberParseErrorKind::PosOverflow,
                },
            );
        }
        filter = filter * 2 + fb;
        value = value * 2 + vb;
        i += 1;
    }
    proof {
        assert(t.take(len - start) =~= t);
    }
    Ok(RegisterValueFilter { filter, value })
}

/// Whether bit `pos` of `x` is set, stated over division so that the codec
/// specs stay in plain arithmetic.
pub open spec fn nth_bit(x: u64, pos: nat) -> bool {
    (x as nat / pow2(pos)) % 2 == 1
}

/// The character encoding bit `pos` of the pair: the value bit where the
/// filter controls the position, `x` where it does not.
pub open spec fn bitmap_char_at(fv: RegisterValueFilter, pos: nat) -> char {
    if nth_bit(fv.filter, pos) {
        if nth_bit(fv.value, pos) {
            '1'
        } else {
            '0'
        }
    } else {
        'x'
    }
}

/// The characters of the encoded bitmap, most significant bit first,
/// without the prefix.
pub open spec fn bitmap_body_spec(fv: RegisterValueFilter, width: nat) -> Seq<char> {
    Seq::new(width, |i: int| bitmap_char_at(fv, (width - 1 - i) as nat))
}

/// What encoding at a width returns: the `0b` prefix and one character per
/// bit position.
pub open spec fn encode_bitmap_spec(fv: RegisterValueFilter, width: nat) -> Seq<char> {
    seq!['0', 'b'] + bitmap_body_spec(fv, width)
}

/// Testing a bit by shift and mask agrees with [`nth_bit`].
proof fn lemma_nth_bit_shift(x: u64, pos: u64)
    requires
        pos < 64,
    ensures
        nth_bit(x, pos as nat) == ((x >> pos) & 1 == 1),
{
    lemma_u64_shr_is_div(x, pos);
    assert((x >> pos) & 1 == (x >> pos) % 2) by (bit_vector);
}

/// Halving a number shifts its bits down by one position.
proof fn lemma_nth_bit_div2(x: u64, p: nat)
    ensures
        nth_bit((x / 2) as u64, p) == nth_bit(x, p + 1),
{
    lemma_pow2_pos(p);
    lemma_div_denominator(x as int, 2, pow2(p) as int);
    lemma_pow2_adds(1, p);
    lemma2_to64();
    assert((x / 2) as nat / pow2(p) == x as nat / pow2(p + 1));
}

/// Reading the encoded characters back as binary numbers recovers the
/// filter and, where the value stays inside the filter, the value.
proof fn lemma_bits_of_body(fv: RegisterValueFilter, w: nat)
    requires
        fv.filter < pow2(w),
        fv.value < pow2(w),
        forall|p: nat| nth_bit(fv.value, p) ==> nth_bit(fv.filter, p),
    ensures
        filter_bits(bitmap_body_spec(fv, w)) == fv.filter,
        value_bits(bitmap_body_spec(fv, w)) == fv.value,
    decreases w,
{
    let s = bitmap_body_spec(fv, w);
    if w == 0 {
        lemma2_to64();
        assert(s =~= Seq::<char>::empty());
    } else {
        let fv2 = RegisterValueFilter {
            filter: (fv.filter / 2) as u64,
            value: (fv.value / 2) as u64,
        };
        let half = pow2((w - 1) as nat);
        assert(pow2(w) == 2 * half) by {
            lemma_pow2_adds(1, (w - 1) as nat);
            lemma2_to64();
        }
        lemma_pow2_pos((w - 1) as nat);
        assert(fv2.filter < half && fv2.value < half) by (nonlinear_arith)
            requires
                fv.filter < 2 * half,
                fv.value < 2 * half,
                half > 0,
                fv2.filter == fv.filter / 2,
                fv2.value == fv.value / 2,
        ;
        assert forall|p: nat| nth_bit(fv2.value, p) implies nth_bit(fv2.filter, p) by {
            lemma_nth_bit_div2(fv.value, p);
            lemma_nth_bit_div2(fv.filter, p);
            assert(nth_bit(fv.value, p + 1) ==> nth_bit(fv.filter, p + 1));
        }
        lemma_bits_of_body(fv2, (w - 1) as nat);
        let s2 = bitmap_body_spec(fv2, (w - 1) as nat);
        assert forall|i: int| 0 <= i < w - 1 implies s[i] == s2[i] by {
            lemma_nth_bit_div2(fv.filter, (w - 2 - i) as nat);
            lemma_nth_bit_div2(fv.value, (w - 2 - i) as nat);
        }
        assert(s.drop_last() =~= s2);
        lemma2_to64();
        assert(nth_bit(fv.filter, 0) == (fv.filter % 2 == 1)) by {
            lemma2_to64();
            assert(pow2(0) == 1);
            assert(fv.filter as nat / pow2(0) == fv.filter as nat);
        }
        assert(nth_bit(fv.value, 0) == (fv.value % 2 == 1)) by {
            lemma2_to64();
            assert(pow2(0) == 1);
            assert(fv.value as nat / pow2(0) == fv.value as nat);
        }
        assert(s.last() == bitmap_char_at(fv, 0));
        lemma_fundamental_div_mod(fv.filter as int, 2);
        lemma_fundamental_div_mod(fv.value as int, 2);
        assert(filter_bits(s) == fv.filter);
        assert(value_bits(s) == fv.value);
    }
}

/// Whether the pair can be spelled faithfully at the given width: filter
/// and value use only the low `width` bits, and the value asserts no bit
/// outside the filter.  The decoder only ever builds such pairs.
pub open spec fn fv_fits(fv: RegisterValueFilter, width: nat) -> bool {
    &&& fv.filter < pow2(width)
    &&& fv.value < pow2(width)
    &&& fv.value & !fv.filter == 0
}

/// Round trip of the bitmap codec: decoding an encoded pair returns the
/// pair, for every pair whose filter and value fit in the width and whose
/// value stays inside the filter.
pub proof fn lemma_bitmap_round_trip(fv: RegisterValueFilter, width: nat)
    requires
        width == 32 || width == 64,
        fv_fits(fv, width),
    ensures
        strip_bitmap_prefix(encode_bitmap_spec(fv, width)) == bitmap_body_spec(fv, width),
        decode_bitmap_spec(bitmap_body_spec(fv, width)) == Ok::<
            RegisterValueFilter,
            NumberParseErrorKind,
        >(fv),
{
    assert forall|p: nat| nth_bit(fv.value, p) implies nth_bit(fv.filter, p) by {
        if p < 64 {
            let pos = p as u64;
            let f = fv.filter;
            let v = fv.value;
            lemma_nth_bit_shift(v, pos);
            lemma_nth_bit_shift(f, pos);
            assert((v & !f == 0 && (v >> pos) & 1 == 1) ==> (f >> pos) & 1 == 1) by (bit_vector);
        } else {
            if (width as nat) < p {
                lemma_pow2_strictly_increases(width, p);
            }
            lemma_pow2_pos(p);
            lemma_basic_div(fv.value as int, pow2(p) as int);
        }
    }
    lemma_bits_of_body(fv, width);
    let s = encode_bitmap_spec(fv, width);
    let body = bitmap_body_spec(fv, width);
    assert(s[0] == '0' && s[1] == 'b');
    assert(s.skip(2) =~= body);
    assert(body.len() == width);
    assert forall|i: int| 0 <= i < body.len() implies bitmap_char_ok(#[trigger] body[i]) by {
        assert(body[i] == bitmap_char_at(fv, (width - 1 - i) as nat));
    }
    assert(pow2(64) == 0x10000000000000000) by {
        lemma2_to64_rest();
    }
    if width == 32 {
        lemma_pow2_strictly_increases(32, 64);
    }
    assert(filter_bits(body) <= u64::MAX as nat);
}

/// Encodes the filter/value pair as a wildcard bitmap text of exactly
/// `width` bit characters behind a `0b` prefix.
pub fn encode_bitmap(fv: RegisterValueFilter, width: usize) -> (r: String)
    requires
        width == 32 || width == 64,
    ensures
        r@ == encode_bitmap_spec(fv, width as nat),
        r@.len() == width + 2,
{
    proof {
        reveal_strlit("0b");
        reveal_strlit("0");
        reveal_strlit("1");
        reveal_strlit("x");
    }
    let mut out = String::from_str("0b");
    proof {
        assert(out@ =~= seq!['0', 'b']);
    }
    let ghost body = bitmap_body_spec(fv, width as nat);
    let mut i: usize = 0;
    while i < width
        invariant
            width == 32 || width == 64,
            i <= width,
            body == bitmap_body_spec(fv, width as nat),
            out@ == seq!['0', 'b'] + body.take(i as int),
        decreases width - i,
    {
        let pos: u64 = (width - 1 - i) as u64;
        proof {
            reveal_strlit("0");
            reveal_strlit("1");
            reveal_strlit("x");
            lemma_nth_bit_shift(fv.filter, pos);
            lemma_nth_bit_shift(fv.value, pos);
            assert(body[i as int] == bitmap_char_at(fv, pos as nat));
        }
        if (fv.filter >> pos) & 1 == 1 {
            if (fv.value >> pos) & 1 == 1 {
                out.append("1");
            } else {
                out.append("0");
            }
        } else {
            out.append("x");
        }
        proof {
            assert(out@ =~= seq!['0', 'b'] + body.take(i + 1));
        }
        i += 1;
    }
    proof {
        assert(body.take(width as int) =~= body);
        assert(out@.len() == width + 2);
    }
    out
}

} // verus!
