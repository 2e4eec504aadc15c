//! Small text helpers: characters, numbers and UTF-8 columns.

use vstd::prelude::*;
use vstd::string::*;
use vstd::utf8::*;

verus! {

/// Whether the Unicode tables call `c` a letter or a number.
pub uninterp spec fn char_is_alphanumeric(c: char) -> bool;

/// `char::is_alphanumeric` of std: a function of the character alone. For an
/// ASCII character it holds exactly of the digits and the letters.
pub assume_specification[ char::is_alphanumeric ](c: char) -> (r: bool)
    ensures
        r == char_is_alphanumeric(c),
        c <= '\u{7f}' ==> r == ('0' <= c <= '9' || 'A' <= c <= 'Z' || 'a' <= c <= 'z'),
;

/// `String::push` of std appends one character.
pub assume_specification[ String::push ](s: &mut String, c: char)
    ensures
        final(s)@ == old(s)@.push(c),
;

/// `String::pop` of std removes and returns the last character, if there is
/// one.
pub assume_specification[ String::pop ](s: &mut String) -> (r: Option<char>)
    ensures
        old(s)@.len() == 0 ==> r is None && final(s)@ == old(s)@,
        old(s)@.len() > 0 ==> r == Some(old(s)@.last()) && final(s)@ == old(s)@.drop_last(),
;

/// `String::from_utf8` of std: the text that the bytes encode, or nothing
/// where they are not valid UTF-8.
#[verifier::external_body]
pub(crate) fn decode_bytes(bytes: Vec<u8>) -> (r: Option<String>)
    ensures
        r is Some <==> valid_utf8(bytes@),
        r matches Some(s) ==> encode_utf8(s@) == bytes@,
{
    String::from_utf8(bytes).ok()
}

/// The text that bytes are shown as where some of them are not valid UTF-8.
pub uninterp spec fn lossy_utf8(bytes: Seq<u8>) -> Seq<char>;

/// `String::from_utf8_lossy` of std: a function of the bytes alone. Valid UTF-8
/// is taken over as it is.
#[verifier::external_body]
pub(crate) fn show_bytes(bytes: &[u8]) -> (r: String)
    ensures
        r@ == lossy_utf8(bytes@),
        valid_utf8(bytes@) ==> encode_utf8(r@) == bytes@,
{
    String::from_utf8_lossy(bytes).into_owned()
}

/// A character that belongs to a word: a letter, a number or an underscore.
pub open spec fn word_char(c: char) -> bool {
    char_is_alphanumeric(c) || c == '_'
}

pub fn is_word_char(c: char) -> (r: bool)
    ensures
        r == word_char(c),
{
    c.is_alphanumeric() || c == '_'
}

/// Two strings are equal when they hold the same characters.
pub fn same_text(a: &str, b: &str) -> (r: bool)
    ensures
        r == (a@ == b@),
{
    a.to_owned() == b.to_owned()
}

/// The characters of `s`, in order.
pub fn chars_of(s: &str) -> (r: Vec<char>)
    ensures
        r@ == s@,
{
    let mut out: Vec<char> = Vec::new();
    for c in it: s.chars()
        invariant
            it.seq() == s@,
            out@ == s@.take(it.index() as int),
    {
        out.push(c);
    }
    out
}

/// The text made of `chars[from..to]`.
pub fn string_of(chars: &Vec<char>, from: usize, to: usize) -> (r: String)
    requires
        from <= to <= chars.len(),
    ensures
        r@ == chars@.subrange(from as int, to as int),
{
    let mut out: String = String::new();
    let mut i: usize = from;
    while i < to
        invariant
            from <= i <= to <= chars.len(),
            out@ == chars@.subrange(from as int, i as int),
        decreases to - i,
    {
        out.push(chars[i]);
        i += 1;
    }
    out
}

/// The character of a decimal digit.
pub open spec fn digit_char(d: nat) -> char {
    (48 + d) as char
}

/// The decimal notation of `n`, without leading zeros.
pub open spec fn decimal(n: nat) -> Seq<char>
    decreases n,
{
    if n < 10 {
        seq![digit_char(n)]
    } else {
        decimal(n / 10).push(digit_char(n % 10))
    }
}

/// Append the decimal notation of `n`.
pub fn push_decimal(out: &mut String, n: u64)
    ensures
        final(out)@ == old(out)@ + decimal(n as nat),
    decreases n,
{
    if n >= 10 {
        push_decimal(out, n / 10);
    }
    let d: u8 = (n % 10) as u8;
    out.push((48 + d) as char);
}

/// The number that a row of decimal digits denotes.
pub open spec fn digits_value(s: Seq<char>) -> nat
    decreases s.len(),
{
    if s.len() == 0 {
        0
    } else {
        digits_value(s.drop_last()) * 10 + (s.last() as nat - 48) as nat
    }
}

/// One or more decimal digits and nothing else.
pub open spec fn all_digits(s: Seq<char>) -> bool {
    s.len() > 0 && forall|i: int| 0 <= i < s.len() ==> '0' <= #[trigger] s[i] <= '9'
}

/// What reading `s` as a `usize` gives: an optional plus sign and digits whose
/// value fits.
pub open spec fn parsed_usize(s: Seq<char>) -> Option<usize> {
    let digits = if s.len() > 0 && s[0] == '+' { s.drop_first() } else { s };
    if all_digits(digits) && digits_value(digits) <= usize::MAX {
        Some(digits_value(digits) as usize)
    } else {
        None
    }
}

proof fn lemma_digits_value_grows(s: Seq<char>, n: int)
    requires
        0 <= n <= s.len(),
    ensures
        digits_value(s.take(n)) <= digits_value(s),
    decreases s.len(),
{
    if n < s.len() {
        lemma_digits_value_grows(s.drop_last(), n);
        assert(s.drop_last().take(n) =~= s.take(n));
    } else {
        assert(s.take(n) =~= s);
    }
}

/// Whether every character of `chars[from..to]` is a decimal digit, and there
/// is at least one.
pub fn is_digits(chars: &Vec<char>, from: usize, to: usize) -> (r: bool)
    requires
        from <= to <= chars.len(),
    ensures
        r == all_digits(chars@.subrange(from as int, to as int)),
{
    let ghost part = chars@.subrange(from as int, to as int);
    if from == to {
        return false;
    }
    let mut i: usize = from;
    while i < to
        invariant
            from <= i <= to <= chars.len(),
            part == chars@.subrange(from as int, to as int),
            forall|k: int| 0 <= k < i - from ==> '0' <= #[trigger] part[k] <= '9',
        decreases to - i,
    {
        let c: char = chars[i];
        assert(part[i - from] == c);
        if !('0' <= c && c <= '9') {
            return false;
        }
        i += 1;
    }
    true
}

/// Read `chars[from..to]` as digits; `None` where they are not all digits or
/// the value is too large.
pub fn parse_digits(chars: &Vec<char>, from: usize, to: usize) -> (r: Option<usize>)
    requires
        from <= to <= chars.len(),
    ensures
        r == ({
            let part = chars@.subrange(from as int, to as int);
            if all_digits(part) && digits_value(part) <= usize::MAX {
                Some(digits_value(part) as usize)
            } else {
                None
            }
        }),
{
    if !is_digits(chars, from, to) {
        return None;
    }
    let ghost part = chars@.subrange(from as int, to as int);
    let mut value: usize = 0;
    let mut i: usize = from;
    assert(part.take(0) =~= seq![]);
    while i < to
        invariant
            from <= i <= to <= chars.len(),
            part == chars@.subrange(from as int, to as int),
            all_digits(part),
            value == digits_value(part.take(i - from)),
        decreases to - i,
    {
        let c: char = chars[i];
        assert(part[i - from] == c);
        let d: usize = c as usize - 48;
        let ghost upto = part.take(i - from + 1);
        assert(upto.drop_last() =~= part.take(i - from));
        assert(upto.last() == c);
        assert(digits_value(upto) == value * 10 + d);
        proof {
            lemma_digits_value_grows(part, i - from + 1);
        }
        let next: Option<usize> = value.checked_mul(10);
        match next {
            None => {
                return None;
            },
            Some(tens) => match tens.checked_add(d) {
                None => {
                    return None;
                },
                Some(v) => {
                    value = v;
                },
            },
        }
        i += 1;
    }
    assert(part.take(to - from) =~= part);
    Some(value)
}

/// Read a `usize` in the notation that `str::parse` takes.
pub fn parse_usize(s: &str) -> (r: Option<usize>)
    ensures
        r == parsed_usize(s@),
{
    let chars: Vec<char> = chars_of(s);
    let n: usize = chars.len();
    let start: usize = if n > 0 && chars[0] == '+' { 1 } else { 0 };
    proof {
        if start == 1 {
            assert(chars@.subrange(1, n as int) =~= s@.drop_first());
        } else {
            assert(chars@.subrange(0, n as int) =~= s@);
        }
    }
    parse_digits(&chars, start, n)
}

} // verus!
