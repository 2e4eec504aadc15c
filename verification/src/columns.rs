//! Columns of a line of text: characters against UTF-8 bytes.

use vstd::prelude::*;
use vstd::utf8::*;

use crate::text::chars_of;

verus! {

/// How many bytes the UTF-8 form of `s` takes.
pub open spec fn byte_len(s: Seq<char>) -> nat {
    encode_utf8(s).len()
}

/// How many bytes one character takes.
pub open spec fn char_bytes(c: char) -> nat {
    encode_scalar(c as u32).len()
}

/// The byte column where character number `col` starts; past the last
/// character, the end of the text.
pub open spec fn byte_col_of(s: Seq<char>, col: int) -> nat {
    byte_len(s.take(if col < s.len() { col } else { s.len() as int }))
}

/// How many characters start before byte column `byte`.
pub open spec fn char_col_of(s: Seq<char>, byte: int) -> nat
    decreases s.len(),
{
    if s.len() == 0 || byte <= 0 {
        0
    } else {
        1 + char_col_of(s.drop_first(), byte - char_bytes(s[0]))
    }
}

/// Encoding goes character by character.
pub proof fn lemma_encode_concat(a: Seq<char>, b: Seq<char>)
    ensures
        encode_utf8(a + b) == encode_utf8(a) + encode_utf8(b),
    decreases a.len(),
{
    if a.len() == 0 {
        assert(a + b =~= b);
        assert(encode_utf8(a) =~= seq![]);
        assert(encode_utf8(a) + encode_utf8(b) =~= encode_utf8(b));
    } else {
        assert((a + b).drop_first() =~= a.drop_first() + b);
        lemma_encode_concat(a.drop_first(), b);
        assert(encode_utf8(a + b) =~= encode_utf8(a) + encode_utf8(b));
    }
}

/// One more character adds its own bytes.
pub proof fn lemma_byte_len_push(s: Seq<char>, c: char)
    ensures
        byte_len(s.push(c)) == byte_len(s) + char_bytes(c),
        1 <= char_bytes(c) <= 4,
{
    let one = seq![c];
    assert(s.push(c) =~= s + one);
    lemma_encode_concat(s, one);
    assert(one.drop_first() =~= seq![]);
    assert(encode_utf8(one.drop_first()) =~= seq![]);
    assert(encode_utf8(one) =~= encode_scalar(c as u32));
}

/// Longer prefixes take more bytes.
pub proof fn lemma_byte_len_grows(s: Seq<char>, i: int, j: int)
    requires
        0 <= i <= j <= s.len(),
    ensures
        byte_len(s.take(i)) + (j - i) <= byte_len(s.take(j)),
    decreases j - i,
{
    if i < j {
        lemma_byte_len_grows(s, i, j - 1);
        assert(s.take(j) =~= s.take(j - 1).push(s[j - 1]));
        lemma_byte_len_push(s.take(j - 1), s[j - 1]);
    }
}

/// `char_col_of` counts the characters whose first byte lies before `byte`.
pub proof fn lemma_char_col_of(s: Seq<char>, byte: int, n: int)
    requires
        0 <= n <= s.len(),
        n > 0 ==> byte_len(s.take(n - 1)) < byte,
        n < s.len() ==> byte <= byte_len(s.take(n)),
    ensures
        char_col_of(s, byte) == n,
    decreases s.len(),
{
    assert(s.take(0) =~= seq![]);
    assert(byte_len(s.take(0)) == 0);
    if n == 0 {
    } else {
        let rest = s.drop_first();
        lemma_byte_len_grows(s, 0, n - 1);
        assert forall|j: int| 0 <= j < s.len() implies byte_len(s.take(j + 1)) == char_bytes(s[0])
            + byte_len(#[trigger] rest.take(j)) by {
            assert(s.take(j + 1).drop_first() =~= rest.take(j));
        }
        if n > 1 {
            assert(byte_len(s.take(n - 2 + 1)) == char_bytes(s[0]) + byte_len(rest.take(n - 2)));
        }
        assert(byte_len(s.take(n - 1 + 1)) == char_bytes(s[0]) + byte_len(rest.take(n - 1)));
        lemma_char_col_of(rest, byte - char_bytes(s[0]), n - 1);
    }
}

/// There are never more such characters than characters.
pub proof fn lemma_char_col_bound(s: Seq<char>, byte: int)
    ensures
        char_col_of(s, byte) <= s.len(),
        0 <= byte ==> char_col_of(s, byte) <= byte,
    decreases s.len(),
{
    if s.len() > 0 && byte > 0 {
        lemma_byte_len_push(seq![], s[0]);
        lemma_char_col_bound(s.drop_first(), byte - char_bytes(s[0]));
    }
}

/// Law: the character column of the byte column of a character is that
/// character's own column.
pub proof fn law_columns_round_trip(s: Seq<char>, col: int)
    requires
        0 <= col <= s.len(),
    ensures
        char_col_of(s, byte_col_of(s, col) as int) == col,
{
    if col > 0 {
        lemma_byte_len_grows(s, col - 1, col);
    }
    if col == s.len() {
        assert(s.take(col) =~= s);
    }
    lemma_char_col_of(s, byte_col_of(s, col) as int, col);
}

/// The number of bytes that `c` takes.
pub fn char_width(c: char) -> (r: usize)
    ensures
        r == char_bytes(c),
        1 <= r <= 4,
{
    let v: u32 = c as u32;
    if v <= 0x7f {
        1
    } else if v <= 0x7ff {
        2
    } else if v <= 0xffff {
        3
    } else {
        4
    }
}

/// The byte column where character `col` of `chars` starts, within a text that
/// takes no more bytes than a `usize` counts.
pub fn byte_col_in(chars: &Vec<char>, col: usize) -> (r: usize)
    requires
        byte_len(chars@) <= usize::MAX,
    ensures
        r == byte_col_of(chars@, col as int),
        r <= byte_len(chars@),
{
    let mut bytes: usize = 0;
    let mut i: usize = 0;
    assert(chars@.take(0) =~= seq![]);
    assert(chars@.take(chars.len() as int) =~= chars@);
    while i < col && i < chars.len()
        invariant
            i <= chars.len(),
            i <= col,
            bytes == byte_len(chars@.take(i as int)),
            byte_len(chars@) <= usize::MAX,
            chars@.take(chars.len() as int) == chars@,
        decreases chars.len() - i,
    {
        proof {
            lemma_byte_len_grows(chars@, i + 1, chars.len() as int);
            assert(chars@.take(i + 1) =~= chars@.take(i as int).push(chars@[i as int]));
            lemma_byte_len_push(chars@.take(i as int), chars@[i as int]);
        }
        bytes += char_width(chars[i]);
        i += 1;
    }
    proof {
        lemma_byte_len_grows(chars@, i as int, chars.len() as int);
    }
    bytes
}

/// How many characters of `chars` start before byte column `byte`.
pub fn char_col_in(chars: &Vec<char>, byte: usize) -> (r: usize)
    ensures
        r == char_col_of(chars@, byte as int),
        r <= chars.len(),
        r <= byte,
{
    let mut left: usize = byte;
    let mut i: usize = 0;
    assert(chars@.take(0) =~= seq![]);
    while i < chars.len() && left > 0
        invariant
            i <= chars.len(),
            byte_len(chars@.take(i as int)) + left >= byte,
            left > 0 ==> byte_len(chars@.take(i as int)) + left == byte,
            i > 0 ==> byte_len(chars@.take(i - 1)) < byte,
        decreases chars.len() - i,
    {
        proof {
            assert(chars@.take(i + 1) =~= chars@.take(i as int).push(chars@[i as int]));
            lemma_byte_len_push(chars@.take(i as int), chars@[i as int]);
        }
        let w: usize = char_width(chars[i]);
        left = left.saturating_sub(w);
        i += 1;
    }
    proof {
        lemma_char_col_of(chars@, byte as int, i as int);
        lemma_char_col_bound(chars@, byte as int);
    }
    i
}

/// The byte column where character `col` of `text` starts.
pub fn char_col_to_byte_col(text: &str, col: usize) -> (r: usize)
    requires
        byte_len(text@) <= usize::MAX,
    ensures
        r == byte_col_of(text@, col as int),
        r <= byte_len(text@),
{
    byte_col_in(&chars_of(text), col)
}

/// How many characters of `text` start before byte column `byte`.
pub fn byte_to_char_col(text: &str, byte: usize) -> (r: usize)
    ensures
        r == char_col_of(text@, byte as int),
        r <= text@.len(),
{
    char_col_in(&chars_of(text), byte)
}

} // verus!
