//! Decimal numbers as a tabular source writes them.
//!
//! A number is kept as the text it was read from, once that text is known to
//! be a decimal literal: nothing is rounded, and whoever computes with the
//! number converts the text at the precision it needs.

use vstd::prelude::*;
use vstd::string::*;

verus! {

/// One of the ten decimal digits.
pub open spec fn is_digit(c: char) -> bool {
    '0' <= c <= '9'
}

/// A plus or minus sign.
pub open spec fn is_sign(c: char) -> bool {
    c == '+' || c == '-'
}

/// The letter that starts an exponent.
pub open spec fn is_exponent_mark(c: char) -> bool {
    c == 'e' || c == 'E'
}

/// Whether `s` holds digits only.
pub open spec fn all_digits(s: Seq<char>) -> bool {
    forall|i: int| 0 <= i < s.len() ==> is_digit(#[trigger] s[i])
}

/// Whether `s` is digits around a decimal point at position `p`, with a digit
/// on at least one side of it.
pub open spec fn has_point_at(s: Seq<char>, p: int) -> bool {
    &&& 0 <= p < s.len()
    &&& s[p] == '.'
    &&& s.len() > 1
    &&& all_digits(s.take(p))
    &&& all_digits(s.skip(p + 1))
}

/// An unsigned number without exponent: one digit or more, with at most one
/// decimal point before, among or after them.
pub open spec fn is_unsigned(s: Seq<char>) -> bool {
    ||| s.len() > 0 && all_digits(s)
    ||| exists|p: int| #[trigger] has_point_at(s, p)
}

/// `s` without its leading sign, if it has one.
pub open spec fn unsigned_part(s: Seq<char>) -> Seq<char> {
    if s.len() > 0 && is_sign(s[0]) {
        s.skip(1)
    } else {
        s
    }
}

/// An integer: one digit or more behind an optional sign.
pub open spec fn is_integer(s: Seq<char>) -> bool {
    unsigned_part(s).len() > 0 && all_digits(unsigned_part(s))
}

/// Whether `s` is an unsigned number, an exponent mark at position `e`, and an
/// integer exponent.
pub open spec fn has_exponent_at(s: Seq<char>, e: int) -> bool {
    &&& 0 <= e < s.len()
    &&& is_exponent_mark(s[e])
    &&& is_unsigned(s.take(e))
    &&& is_integer(s.skip(e + 1))
}

/// A decimal literal: an optional sign, an unsigned number, and optionally an
/// exponent. `-2.5876178397`, `358929`, `.5`, `1.` and `1.5e-7` are literals;
/// the empty text, `.`, `1e` and `inf` are not.
pub open spec fn is_decimal(s: Seq<char>) -> bool {
    ||| is_unsigned(unsigned_part(s))
    ||| exists|e: int| #[trigger] has_exponent_at(unsigned_part(s), e)
}

/// The characters that the bytes of an ASCII text stand for.
pub open spec fn byte_chars(bytes: Seq<u8>) -> Seq<char> {
    Seq::new(bytes.len(), |i: int| bytes[i] as char)
}

/// A decimal literal holds ASCII characters only.
pub proof fn lemma_decimal_is_ascii(s: Seq<char>)
    requires
        is_decimal(s),
    ensures
        vstd::utf8::is_ascii_chars(s),
{
    let body = unsigned_part(s);
    assert forall|i: int| 0 <= i < s.len() implies '\0' <= #[trigger] s[i] <= '\u{7f}' by {
        if body.len() == s.len() {
            lemma_unsigned_chars(body, i);
        } else if i > 0 {
            lemma_unsigned_chars(body, i - 1);
        }
    }
}

/// Every character of a decimal literal without sign is a digit, a point or
/// an exponent mark, or the sign of the exponent.
proof fn lemma_unsigned_chars(body: Seq<char>, k: int)
    requires
        is_unsigned(body) || exists|e: int| #[trigger] has_exponent_at(body, e),
        0 <= k < body.len(),
    ensures
        is_digit(body[k]) || body[k] == '.' || is_exponent_mark(body[k]) || is_sign(body[k]),
{
    if is_unsigned(body) {
        lemma_plain_chars(body, k);
    } else {
        let e = choose|e: int| #[trigger] has_exponent_at(body, e);
        if k < e {
            lemma_plain_chars(body.take(e), k);
        } else if k > e {
            let tail = body.skip(e + 1);
            if unsigned_part(tail).len() == tail.len() {
                assert(unsigned_part(tail)[k - e - 1] == body[k]);
            } else if k - e - 1 > 0 {
                assert(unsigned_part(tail)[k - e - 2] == body[k]);
            }
        }
    }
}

/// Every character of an unsigned number is a digit or a point.
proof fn lemma_plain_chars(s: Seq<char>, k: int)
    requires
        is_unsigned(s),
        0 <= k < s.len(),
    ensures
        is_digit(s[k]) || s[k] == '.',
{
    if !(s.len() > 0 && all_digits(s)) {
        let p = choose|p: int| #[trigger] has_point_at(s, p);
        if k < p {
            assert(s.take(p)[k] == s[k]);
        } else if k > p {
            assert(s.skip(p + 1)[k - p - 1] == s[k]);
        }
    }
}

/// Whether the bytes from `start` up to `end` are digits.
fn digits_only(bytes: &[u8], start: usize, end: usize) -> (ok: bool)
    requires
        start <= end <= bytes@.len(),
    ensures
        ok == all_digits(byte_chars(bytes@).subrange(start as int, end as int)),
{
    let ghost chars = byte_chars(bytes@).subrange(start as int, end as int);
    let mut i: usize = start;
    while i < end
        invariant
            start <= i <= end <= bytes@.len(),
            chars == byte_chars(bytes@).subrange(start as int, end as int),
            forall|k: int| 0 <= k < i - start ==> is_digit(#[trigger] chars[k]),
        decreases end - i,
    {
        let b: u8 = bytes[i];
        if b < 48 || b > 57 {
            assert(chars[i - start] == b as char);
            return false;
        }
        i += 1;
    }
    true
}

/// The position of the first byte from `start` up to `end` for which
/// `wanted` holds, or `end` if there is none.
fn first_of(bytes: &[u8], start: usize, end: usize, wanted: Wanted) -> (at: usize)
    requires
        start <= end <= bytes@.len(),
    ensures
        start <= at <= end,
        forall|k: int| start <= k < at ==> !wanted.holds(#[trigger] bytes@[k] as char),
        at < end ==> wanted.holds(bytes@[at as int] as char),
{
    let mut i: usize = start;
    while i < end
        invariant
            start <= i <= end <= bytes@.len(),
            forall|k: int| start <= k < i ==> !wanted.holds(#[trigger] bytes@[k] as char),
        decreases end - i,
    {
        let b: u8 = bytes[i];
        let hit = match wanted {
            Wanted::NoDigit => b < 48 || b > 57,
            Wanted::ExponentMark => b == 101 || b == 69,
        };
        if hit {
            return i;
        }
        i += 1;
    }
    end
}

/// What [`first_of`] looks for.
#[derive(Clone, Copy)]
enum Wanted {
    NoDigit,
    ExponentMark,
}

impl Wanted {
    spec fn holds(self, c: char) -> bool {
        match self {
            Wanted::NoDigit => !is_digit(c),
            Wanted::ExponentMark => is_exponent_mark(c),
        }
    }
}

/// Whether the bytes from `start` up to `end` are an unsigned number.
fn unsigned_syntax(bytes: &[u8], start: usize, end: usize) -> (ok: bool)
    requires
        start <= end <= bytes@.len(),
    ensures
        ok == is_unsigned(byte_chars(bytes@).subrange(start as int, end as int)),
{
    let ghost chars = byte_chars(bytes@).subrange(start as int, end as int);
    let point = first_of(bytes, start, end, Wanted::NoDigit);
    proof {
        assert forall|k: int| 0 <= k < point - start implies is_digit(#[trigger] chars[k]) by {}
        if point < end {
            assert(chars[point - start] == bytes@[point as int] as char);
            assert forall|p: int| #[trigger] has_point_at(chars, p) implies p == point - start by {
                if p > point - start {
                    assert(chars.take(p)[point - start] == chars[point - start]);
                }
            }
        } else {
            assert forall|p: int| !#[trigger] has_point_at(chars, p) by {}
        }
    }
    if point == end {
        return end > start;
    }
    if bytes[point] != 46 || end - start <= 1 {
        return false;
    }
    let ok = digits_only(bytes, point + 1, end);
    proof {
        let p = point - start;
        assert(chars.skip(p + 1) == byte_chars(bytes@).subrange(point + 1, end as int));
        if ok {
            assert(has_point_at(chars, p));
        }
    }
    ok
}

/// Whether the bytes from `start` up to `end` are an integer.
fn integer_syntax(bytes: &[u8], start: usize, end: usize) -> (ok: bool)
    requires
        start <= end <= bytes@.len(),
    ensures
        ok == is_integer(byte_chars(bytes@).subrange(start as int, end as int)),
{
    let digits = skip_sign(bytes, start, end);
    let ok = digits_only(bytes, digits, end);
    ok && end > digits
}

/// The position behind the sign that the bytes from `start` up to `end` begin
/// with, or `start` if they begin with none.
fn skip_sign(bytes: &[u8], start: usize, end: usize) -> (at: usize)
    requires
        start <= end <= bytes@.len(),
    ensures
        start <= at <= end,
        unsigned_part(byte_chars(bytes@).subrange(start as int, end as int)) == byte_chars(
            bytes@,
        ).subrange(at as int, end as int),
{
    if start < end && (bytes[start] == 43 || bytes[start] == 45) {
        start + 1
    } else {
        start
    }
}

/// Whether `bytes` are a decimal literal.
fn decimal_syntax(bytes: &[u8]) -> (ok: bool)
    ensures
        ok == is_decimal(byte_chars(bytes@)),
{
    let end = bytes.len();
    let ghost chars = byte_chars(bytes@);
    assert(chars.subrange(0, end as int) == chars);
    let start = skip_sign(bytes, 0, end);
    let ghost body = unsigned_part(chars);
    let mark = first_of(bytes, start, end, Wanted::ExponentMark);
    proof {
        assert forall|k: int| 0 <= k < mark - start implies !is_exponent_mark(
            #[trigger] body[k],
        ) by {}
        assert forall|e: int| #[trigger] has_exponent_at(body, e) implies mark < end && e == mark
            - start by {
            if e > mark - start {
                lemma_plain_chars(body.take(e), mark - start);
            }
        }
    }
    if mark == end {
        return unsigned_syntax(bytes, start, end);
    }
    proof {
        if is_unsigned(body) {
            lemma_plain_chars(body, mark - start);
        }
        assert(body.take(mark - start) == chars.subrange(start as int, mark as int));
        assert(body.skip(mark - start + 1) == chars.subrange(mark + 1, end as int));
    }
    let number = unsigned_syntax(bytes, start, mark);
    let exponent = integer_syntax(bytes, mark + 1, end);
    proof {
        if number && exponent {
            assert(has_exponent_at(body, mark - start));
        }
    }
    number && exponent
}

/// A decimal number, kept as the literal it was read from.
#[derive(Debug, PartialEq, Eq)]
pub struct Decimal {
    text: String,
}

impl View for Decimal {
    type V = Seq<char>;

    closed spec fn view(&self) -> Seq<char> {
        self.text@
    }
}

impl Clone for Decimal {
    fn clone(&self) -> (copy: Self)
        ensures
            copy@ == self@,
    {
        proof {
            use_type_invariant(self);
        }
        Decimal { text: self.text.clone() }
    }
}

impl Decimal {
    #[verifier::type_invariant]
    spec fn literal(&self) -> bool {
        is_decimal(self.text@)
    }

    /// Reads `text` as a decimal number: it is one exactly when it is a
    /// decimal literal, and the number then keeps the text as it stands.
    pub fn parse(text: &str) -> (number: Option<Decimal>)
        ensures
            number is Some == is_decimal(text@),
            number matches Some(decimal) ==> decimal@ == text@,
    {
        if !text.is_ascii() {
            proof {
                if is_decimal(text@) {
                    lemma_decimal_is_ascii(text@);
                }
            }
            return None;
        }
        let bytes = text.as_bytes();
        proof {
            is_ascii_spec_bytes(text);
            assert(byte_chars(bytes@) =~= text@);
        }
        if decimal_syntax(bytes) {
            Some(Decimal { text: text.to_owned() })
        } else {
            None
        }
    }

    /// The literal. It is a decimal literal, so a conversion to a binary
    /// floating-point number cannot fail on it.
    pub fn as_str(&self) -> (text: &str)
        ensures
            text@ == self@,
            is_decimal(text@),
    {
        proof {
            use_type_invariant(self);
        }
        self.text.as_str()
    }
}

} // verus!
