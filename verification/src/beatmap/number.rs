//! Numbers as the format writes them: decimal integers with an optional
//! sign, and decimal fractions, which are checked and kept as text.

use crate::beatmap::text::{find, lemma_find, lemma_find_unique, MINUS, PLUS, POINT, text_of};
use vstd::prelude::*;
use vstd::string::StringSliceAdditionalSpecFns;

verus! {

/// The digits `0` and `9`, and the letters that the grammar of numbers
/// names.
pub const ZERO: u8 = 0x30;

pub const NINE: u8 = 0x39;

pub const CAPITAL_A: u8 = 0x41;

pub const CAPITAL_Z: u8 = 0x5A;

pub const SMALL_A: u8 = 0x61;

pub const SMALL_E: u8 = 0x65;

pub const SMALL_Z: u8 = 0x7A;

/// An ASCII decimal digit.
pub open spec fn is_digit(b: u8) -> bool {
    ZERO <= b && b <= NINE
}

/// What a digit counts for; nothing for any other byte.
pub open spec fn digit_value(b: u8) -> nat {
    if is_digit(b) {
        (b - ZERO) as nat
    } else {
        0
    }
}

/// Every byte of `s` is a digit.
pub open spec fn all_digits(s: Seq<u8>) -> bool {
    forall|i: int| 0 <= i < s.len() ==> is_digit(#[trigger] s[i])
}

/// The number that a run of digits writes in base ten.
pub open spec fn digits_value(s: Seq<u8>) -> nat
    decreases s.len(),
{
    if s.len() == 0 {
        0
    } else {
        digits_value(s.drop_last()) * 10 + digit_value(s.last())
    }
}

/// `+` or `-`.
pub open spec fn is_sign(b: u8) -> bool {
    b == PLUS || b == MINUS
}

/// The number that `s` writes, for a text made of an optional `+` and at
/// least one digit.
pub open spec fn unsigned_value(s: Seq<u8>) -> Option<nat> {
    let digits = if s.len() > 0 && s[0] == PLUS {
        s.skip(1)
    } else {
        s
    };
    if digits.len() > 0 && all_digits(digits) {
        Some(digits_value(digits))
    } else {
        None
    }
}

/// The number that `s` writes, for a text made of an optional `+` or `-` and
/// at least one digit.
pub open spec fn signed_value(s: Seq<u8>) -> Option<int> {
    let digits = if s.len() > 0 && is_sign(s[0]) {
        s.skip(1)
    } else {
        s
    };
    if digits.len() > 0 && all_digits(digits) {
        if s[0] == MINUS {
            Some(-(digits_value(digits) as int))
        } else {
            Some(digits_value(digits) as int)
        }
    } else {
        None
    }
}

/// `s` read as a `usize`: its value where it writes one that fits.
pub open spec fn usize_value(s: Seq<u8>) -> Option<usize> {
    match unsigned_value(s) {
        Some(n) if n <= usize::MAX => Some(n as usize),
        _ => None,
    }
}

/// `s` read as a `u8`: its value where it writes one that fits.
pub open spec fn u8_value(s: Seq<u8>) -> Option<u8> {
    match unsigned_value(s) {
        Some(n) if n <= u8::MAX => Some(n as u8),
        _ => None,
    }
}

/// `s` read as an `isize`: its value where it writes one that fits.
pub open spec fn isize_value(s: Seq<u8>) -> Option<isize> {
    match signed_value(s) {
        Some(n) if isize::MIN <= n <= isize::MAX => Some(n as isize),
        _ => None,
    }
}

/// A longer run of digits never writes a smaller number.
pub proof fn lemma_digits_value_grows(s: Seq<u8>, n: int)
    requires
        0 <= n <= s.len(),
    ensures
        digits_value(s.take(n)) <= digits_value(s),
    decreases s.len() - n,
{
    if n == s.len() {
        assert(s.take(n) =~= s);
    } else {
        lemma_digits_value_grows(s, n + 1);
        assert(s.take(n + 1).drop_last() =~= s.take(n));
    }
}

/// The digits that write `n` in base ten, without a sign and without
/// leading zeros.
pub open spec fn unsigned_text(n: nat) -> Seq<u8>
    decreases n,
{
    if n < 10 {
        seq![(ZERO + n) as u8]
    } else {
        unsigned_text(n / 10).push((ZERO + n % 10) as u8)
    }
}

/// The digits that write a number are digits, and write that number.
pub proof fn lemma_unsigned_text(n: nat)
    ensures
        unsigned_text(n).len() > 0,
        all_digits(unsigned_text(n)),
        digits_value(unsigned_text(n)) == n,
        unsigned_value(unsigned_text(n)) == Some(n),
    decreases n,
{
    let text = unsigned_text(n);
    if n < 10 {
        assert(text.drop_last() =~= Seq::<u8>::empty());
        assert(digits_value(text.drop_last()) == 0);
    } else {
        lemma_unsigned_text(n / 10);
        assert(text.drop_last() =~= unsigned_text(n / 10));
    }
    assert(is_digit(text[0]));
}

/// Whether `b` is a digit.
pub fn is_digit_byte(b: u8) -> (r: bool)
    ensures
        r == is_digit(b),
{
    ZERO <= b && b <= NINE
}

/// Reads the bytes of `s` from `from` on as digits, up to `limit`.
fn parse_digits(s: &[u8], from: usize, limit: u64) -> (r: Option<u64>)
    requires
        from <= s.len(),
    ensures
        r == if s@.skip(from as int).len() > 0 && all_digits(s@.skip(from as int)) && digits_value(
            s@.skip(from as int),
        ) <= limit {
            Some(digits_value(s@.skip(from as int)) as u64)
        } else {
            None
        },
{
    let ghost d = s@.skip(from as int);
    if from == s.len() {
        return None;
    }
    let mut acc: u64 = 0;
    let mut i: usize = from;
    while i < s.len()
        invariant
            from <= i <= s.len(),
            d == s@.skip(from as int),
            all_digits(d.take(i - from)),
            acc == digits_value(d.take(i - from)),
            acc <= limit,
        decreases s.len() - i,
    {
        let b = s[i];
        assert(d[i - from] == b);
        if !is_digit_byte(b) {
            return None;
        }
        let v: u64 = (b - ZERO) as u64;
        proof {
            assert(d.take(i - from + 1).drop_last() =~= d.take(i - from));
            assert(d.take(i - from + 1).last() == b);
            assert(digits_value(d.take(i - from + 1)) == acc * 10 + v);
            lemma_digits_value_grows(d, i - from + 1);
        }
        if v > limit || acc > (limit - v) / 10 {
            return None;
        }
        acc = acc * 10 + v;
        i += 1;
    }
    assert(d.take(i - from) =~= d);
    Some(acc)
}

/// Reads `s` as a `usize`.
pub fn parse_usize(s: &[u8]) -> (r: Option<usize>)
    ensures
        r == usize_value(s@),
{
    let from: usize = if s.len() > 0 && s[0] == PLUS {
        1
    } else {
        0
    };
    proof {
        assert(s@.skip(0) =~= s@);
    }
    match parse_digits(s, from, usize::MAX as u64) {
        Some(v) => Some(v as usize),
        None => None,
    }
}

/// Reads `s` as a `u8`.
pub fn parse_u8(s: &[u8]) -> (r: Option<u8>)
    ensures
        r == u8_value(s@),
{
    let from: usize = if s.len() > 0 && s[0] == PLUS {
        1
    } else {
        0
    };
    proof {
        assert(s@.skip(0) =~= s@);
    }
    match parse_digits(s, from, 255) {
        Some(v) => Some(v as u8),
        None => None,
    }
}

/// Reads `s` as an `isize`.
pub fn parse_isize(s: &[u8]) -> (r: Option<isize>)
    ensures
        r == isize_value(s@),
{
    let negative = s.len() > 0 && s[0] == MINUS;
    let from: usize = if s.len() > 0 && (s[0] == PLUS || s[0] == MINUS) {
        1
    } else {
        0
    };
    proof {
        assert(s@.skip(0) =~= s@);
    }
    if negative {
        match parse_digits(s, from, isize::MAX as u64 + 1) {
            Some(v) => if v == isize::MAX as u64 + 1 {
                Some(isize::MIN)
            } else {
                Some(-(v as isize))
            },
            None => None,
        }
    } else {
        match parse_digits(s, from, isize::MAX as u64) {
            Some(v) => Some(v as isize),
            None => None,
        }
    }
}

/// The test for a byte that is no digit, as a value.
pub open spec fn not_digit() -> spec_fn(u8) -> bool {
    |b: u8| !is_digit(b)
}

/// Where the run of digits that starts at `from` ends.
pub open spec fn digits_end(s: Seq<u8>, from: int) -> int {
    find(s, from, not_digit())
}

/// `b` with an ASCII capital letter turned into its small letter.
pub open spec fn lower(b: u8) -> u8 {
    if CAPITAL_A <= b && b <= CAPITAL_Z {
        (b + 0x20) as u8
    } else {
        b
    }
}

/// `s` in small letters.
pub open spec fn lowered(s: Seq<u8>) -> Seq<u8> {
    Seq::new(s.len(), |i: int| lower(s[i]))
}

/// From `at` to its end, `s` is an exponent: `e` or `E`, an optional sign,
/// and at least one digit.
pub open spec fn exponent_at(s: Seq<u8>, at: int) -> bool {
    let digits = if at + 1 < s.len() && is_sign(s[at + 1]) {
        at + 2
    } else {
        at + 1
    };
    &&& at + 1 < s.len()
    &&& lower(s[at]) == SMALL_E
    &&& digits < s.len()
    &&& digits_end(s, digits) == s.len()
}

/// From `from` to its end, `s` is a decimal number: digits with at most one
/// point among them and at least one digit, then possibly an exponent.
pub open spec fn number_at(s: Seq<u8>, from: int) -> bool {
    let whole = digits_end(s, from);
    let mantissa = if whole < s.len() && s[whole] == POINT {
        digits_end(s, whole + 1)
    } else {
        whole
    };
    &&& (whole > from || mantissa > whole + 1)
    &&& (mantissa == s.len() || exponent_at(s, mantissa))
}

/// From `from` to its end, `s` is one of the words `inf`, `infinity` and
/// `nan`, in capital or small letters.
pub open spec fn special_at(s: Seq<u8>, from: int) -> bool {
    let word = lowered(s.skip(from));
    word == "inf".spec_bytes() || word == "infinity".spec_bytes() || word == "nan".spec_bytes()
}

/// `s` writes a decimal fraction: an optional sign, then a number or one of
/// the special words.
pub open spec fn is_decimal(s: Seq<u8>) -> bool {
    let from: int = if s.len() > 0 && is_sign(s[0]) {
        1
    } else {
        0
    };
    from < s.len() && (special_at(s, from) || number_at(s, from))
}

/// A byte that a decimal fraction can hold: a digit, a sign, the point, or
/// an ASCII letter.
pub open spec fn is_decimal_byte(b: u8) -> bool {
    ||| is_digit(b)
    ||| is_sign(b)
    ||| b == POINT
    ||| (CAPITAL_A <= b && b <= CAPITAL_Z)
    ||| (SMALL_A <= b && b <= SMALL_Z)
}

/// A decimal fraction is not empty and holds nothing but digits, signs, the
/// point and letters.
pub proof fn lemma_decimal_bytes(s: Seq<u8>)
    requires
        is_decimal(s),
    ensures
        s.len() > 0,
        forall|i: int| 0 <= i < s.len() ==> is_decimal_byte(#[trigger] s[i]),
{
    let from: int = if is_sign(s[0]) {
        1
    } else {
        0
    };
    if special_at(s, from) {
        reveal_strlit("inf");
        reveal_strlit("infinity");
        reveal_strlit("nan");
        vstd::string::is_ascii_spec_bytes("inf");
        vstd::string::is_ascii_spec_bytes("infinity");
        vstd::string::is_ascii_spec_bytes("nan");
        let word = lowered(s.skip(from));
        assert forall|i: int| 0 <= i < s.len() implies is_decimal_byte(#[trigger] s[i]) by {
            if i >= from {
                assert(word[i - from] == lower(s[i]));
                assert(SMALL_A <= word[i - from] <= SMALL_Z);
            }
        }
    } else {
        let whole = digits_end(s, from);
        lemma_find(s, from, not_digit());
        let mantissa = if whole < s.len() && s[whole] == POINT {
            digits_end(s, whole + 1)
        } else {
            whole
        };
        if whole < s.len() && s[whole] == POINT {
            lemma_find(s, whole + 1, not_digit());
        }
        if mantissa < s.len() {
            let digits = if is_sign(s[mantissa + 1]) {
                mantissa + 2
            } else {
                mantissa + 1
            };
            lemma_find(s, digits, not_digit());
        }
        assert forall|i: int| 0 <= i < s.len() implies is_decimal_byte(#[trigger] s[i]) by {
            if from <= i < whole {
                assert(!not_digit()(s[i]));
            } else if whole < i < mantissa {
                assert(!not_digit()(s[i]));
            } else if i > mantissa + 1 {
                assert(!not_digit()(s[i]));
            } else if i == mantissa + 1 {
                if !is_sign(s[i]) {
                    assert(!not_digit()(s[i]));
                }
            }
        }
    }
}

/// The place where the digits that start at `from` end.
fn skip_digits(s: &[u8], from: usize) -> (end: usize)
    requires
        from <= s.len(),
    ensures
        end == digits_end(s@, from as int),
        from <= end <= s.len(),
{
    let mut end: usize = from;
    while end < s.len() && is_digit_byte(s[end])
        invariant
            from <= end <= s.len(),
            forall|k: int| from <= k < end ==> is_digit(#[trigger] s@[k]),
        decreases s.len() - end,
    {
        end += 1;
    }
    proof {
        lemma_find_unique(s@, from as int, not_digit(), end as int);
    }
    end
}

/// `b` in small letters.
fn lower_byte(b: u8) -> (r: u8)
    ensures
        r == lower(b),
{
    if CAPITAL_A <= b && b <= CAPITAL_Z {
        b + 0x20
    } else {
        b
    }
}

/// Whether `s` from `from` on spells `word`, whatever the case of its letters.
fn is_word_at(s: &[u8], from: usize, word: &[u8]) -> (r: bool)
    requires
        from <= s.len(),
    ensures
        r == (lowered(s@.skip(from as int)) == word@),
{
    let ghost low = lowered(s@.skip(from as int));
    if s.len() - from != word.len() {
        return false;
    }
    let mut i: usize = 0;
    while i < word.len()
        invariant
            i <= word.len(),
            from + word.len() == s.len(),
            low == lowered(s@.skip(from as int)),
            forall|k: int| 0 <= k < i ==> low[k] == word@[k],
        decreases word.len() - i,
    {
        if lower_byte(s[from + i]) != word[i] {
            assert(low[i as int] != word@[i as int]);
            return false;
        }
        i += 1;
    }
    assert(low =~= word@);
    true
}

/// Whether `s` writes a decimal fraction.
pub fn check_decimal(s: &[u8]) -> (r: bool)
    ensures
        r == is_decimal(s@),
{
    let from: usize = if s.len() > 0 && (s[0] == PLUS || s[0] == MINUS) {
        1
    } else {
        0
    };
    if from >= s.len() {
        return false;
    }
    if is_word_at(s, from, "inf".as_bytes()) || is_word_at(s, from, "infinity".as_bytes())
        || is_word_at(s, from, "nan".as_bytes()) {
        return true;
    }
    let whole = skip_digits(s, from);
    let mantissa = if whole < s.len() && s[whole] == POINT {
        skip_digits(s, whole + 1)
    } else {
        whole
    };
    if !(whole > from || mantissa > whole + 1) {
        return false;
    }
    if mantissa == s.len() {
        return true;
    }
    if lower_byte(s[mantissa]) != SMALL_E || mantissa + 1 >= s.len() {
        return false;
    }
    let digits = if s[mantissa + 1] == PLUS || s[mantissa + 1] == MINUS {
        mantissa + 2
    } else {
        mantissa + 1
    };
    if digits >= s.len() {
        return false;
    }
    skip_digits(s, digits) == s.len()
}

/// A decimal fraction, kept as the text that wrote it.
///
/// The text is an optional sign followed by digits with at most one point
/// and an optional exponent, or by one of the words `inf`, `infinity` and
/// `nan`: what `f32::from_str` and `f64::from_str` accept.
#[derive(Debug, PartialEq, Eq)]
pub struct Decimal {
    text: Vec<u8>,
}

impl View for Decimal {
    type V = Seq<u8>;

    closed spec fn view(&self) -> Seq<u8> {
        self.text@
    }
}

impl DeepView for Decimal {
    type V = Seq<u8>;

    open spec fn deep_view(&self) -> Seq<u8> {
        self.view()
    }
}

impl Default for Decimal {
    /// Zero, written `0`.
    fn default() -> (r: Self)
        ensures
            r@ == seq![ZERO],
    {
        let mut text: Vec<u8> = Vec::new();
        text.push(ZERO);
        proof {
            assert(text@ =~= seq![ZERO]);
            lemma_find_unique(text@, 0, not_digit(), 1);
        }
        Decimal { text }
    }
}

impl Clone for Decimal {
    fn clone(&self) -> (r: Self)
        ensures
            r@ == self@,
    {
        proof {
            use_type_invariant(self);
        }
        Decimal { text: self.text.clone() }
    }
}

impl Decimal {
    #[verifier::type_invariant]
    spec fn well_formed(&self) -> bool {
        is_decimal(self.text@)
    }

    /// The fraction that `s` writes, if it writes one.
    pub fn parse(s: &[u8]) -> (r: Option<Decimal>)
        ensures
            r is Some <==> is_decimal(s@),
            r matches Some(d) ==> d@ == s@,
    {
        if !check_decimal(s) {
            return None;
        }
        let mut text: Vec<u8> = Vec::new();
        let mut i: usize = 0;
        while i < s.len()
            invariant
                i <= s.len(),
                text@ == s@.take(i as int),
            decreases s.len() - i,
        {
            text.push(s[i]);
            i += 1;
            assert(text@ =~= s@.take(i as int));
        }
        assert(s@.take(i as int) =~= s@);
        Some(Decimal { text })
    }

    /// The bytes of the text.
    pub fn as_bytes(&self) -> (r: &[u8])
        ensures
            r@ == self@,
            is_decimal(self@),
    {
        proof {
            use_type_invariant(self);
        }
        self.text.as_slice()
    }

    /// The text, ready to be handed to a floating-point parser.
    pub fn text(&self) -> (r: String)
        ensures
            r@ == crate::beatmap::text::latin1(self@),
            is_decimal(self@),
    {
        proof {
            use_type_invariant(self);
        }
        text_of(self.text.as_slice())
    }
}

} // verus!
