//! Text handling shared by the parsers: how received bytes are read as
//! characters, and how a line is cut into whitespace-delimited tokens.

use vstd::prelude::*;

verus! {

/// Appends one character to a string. `String::push` has no specification in
/// vstd; this one says what its documentation says: the string afterwards is
/// the string before with `c` at its end.
pub assume_specification[ String::push ](s: &mut String, c: char)
    ensures
        final(s)@ == old(s)@.push(c),
;

/// The characters that a byte sequence stands for: each byte is the code
/// point of one character.
pub open spec fn decode(bytes: Seq<u8>) -> Seq<char> {
    Seq::new(bytes.len(), |i: int| bytes[i] as char)
}

/// Whether `c` separates tokens: the characters with the Unicode property
/// `White_Space`.
pub open spec fn is_whitespace(c: char) -> bool {
    let v = c as u32;
    ||| 0x09 <= v <= 0x0d
    ||| v == 0x20
    ||| v == 0x85
    ||| v == 0xa0
    ||| v == 0x1680
    ||| 0x2000 <= v <= 0x200a
    ||| v == 0x2028
    ||| v == 0x2029
    ||| v == 0x202f
    ||| v == 0x205f
    ||| v == 0x3000
}

/// The first index at or after `from` whose character is not whitespace
/// (`blank` true) or is whitespace (`blank` false); the length of `s` if
/// there is none.
pub open spec fn scan(s: Seq<char>, from: int, blank: bool) -> int
    decreases s.len() - from,
{
    if 0 <= from < s.len() && is_whitespace(s[from]) == blank {
        scan(s, from + 1, blank)
    } else {
        from
    }
}

/// Where the first token starts at or after `from`.
pub open spec fn token_start(s: Seq<char>, from: int) -> int {
    scan(s, from, true)
}

/// Where the token that starts at `start` ends (exclusive).
pub open spec fn token_end(s: Seq<char>, start: int) -> int {
    scan(s, start, false)
}

/// The first two whitespace-delimited tokens of `s`, or `None` if `s` holds
/// fewer than two. Whatever follows the second token is ignored.
pub open spec fn first_two_tokens(s: Seq<char>) -> Option<(Seq<char>, Seq<char>)> {
    let a = token_start(s, 0);
    let b = token_end(s, a);
    let c = token_start(s, b);
    let d = token_end(s, c);
    if c < s.len() {
        Some((s.subrange(a, b), s.subrange(c, d)))
    } else {
        None
    }
}

/// A scan never moves backwards and never leaves the sequence; everything it
/// passes over is of the kind it skips, and it stops at the first character
/// of the other kind.
pub proof fn lemma_scan(s: Seq<char>, from: int, blank: bool)
    requires
        0 <= from <= s.len(),
    ensures
        from <= scan(s, from, blank) <= s.len(),
        forall|i: int| from <= i < scan(s, from, blank) ==> is_whitespace(s[i]) == blank,
        scan(s, from, blank) < s.len() ==> is_whitespace(s[scan(s, from, blank)]) != blank,
    decreases s.len() - from,
{
    if from < s.len() && is_whitespace(s[from]) == blank {
        lemma_scan(s, from + 1, blank);
    }
}

/// The two tokens that `first_two_tokens` finds are what splitting on
/// whitespace means: each is a non-empty run free of whitespace, the first
/// is preceded by whitespace only, only whitespace lies between the two,
/// and each ends at a whitespace character or at the end of the text.
pub proof fn lemma_first_two_tokens(s: Seq<char>)
    requires
        first_two_tokens(s) is Some,
    ensures
        ({
            let a = token_start(s, 0);
            let b = token_end(s, a);
            let c = token_start(s, b);
            let d = token_end(s, c);
            &&& 0 <= a < b < c < d <= s.len()
            &&& first_two_tokens(s) == Some((s.subrange(a, b), s.subrange(c, d)))
            &&& forall|i: int| 0 <= i < a ==> is_whitespace(s[i])
            &&& forall|i: int| a <= i < b ==> !is_whitespace(s[i])
            &&& forall|i: int| b <= i < c ==> is_whitespace(s[i])
            &&& forall|i: int| c <= i < d ==> !is_whitespace(s[i])
            &&& d < s.len() ==> is_whitespace(s[d])
        }),
{
    let a = token_start(s, 0);
    lemma_scan(s, 0, true);
    let b = token_end(s, a);
    lemma_scan(s, a, false);
    let c = token_start(s, b);
    lemma_scan(s, b, true);
    let d = token_end(s, c);
    lemma_scan(s, c, false);
}

/// Whether `c` separates tokens.
pub fn char_is_whitespace(c: char) -> (blank: bool)
    ensures
        blank == is_whitespace(c),
{
    let v: u32 = c as u32;
    (0x09 <= v && v <= 0x0d) || v == 0x20 || v == 0x85 || v == 0xa0 || v == 0x1680 || (0x2000 <= v
        && v <= 0x200a) || v == 0x2028 || v == 0x2029 || v == 0x202f || v == 0x205f || v == 0x3000
}

/// The character that a received byte stands for.
pub fn byte_to_char(byte: u8) -> (c: char)
    ensures
        c == byte as char,
{
    byte as char
}

/// Scanning from `from` is scanning from `from + 1` when the character at
/// `from` is of the kind skipped, and stops at `from` when it is not.
proof fn lemma_scan_step(s: Seq<char>, from: int, blank: bool)
    requires
        0 <= from < s.len(),
    ensures
        is_whitespace(s[from]) == blank ==> scan(s, from, blank) == scan(s, from + 1, blank),
        is_whitespace(s[from]) != blank ==> scan(s, from, blank) == from,
{
}

/// Splits `line` on whitespace and hands out its first two tokens; `None` if
/// it holds fewer than two.
pub fn split_two(line: &str) -> (pair: Option<(String, String)>)
    ensures
        match first_two_tokens(line@) {
            Some((first, second)) => pair matches Some(p) && p.0@ == first && p.1@ == second,
            None => pair is None,
        },
{
    let ghost s = line@;
    let ghost a = token_start(s, 0);
    let ghost b = token_end(s, a);
    let ghost c = token_start(s, b);
    let ghost d = token_end(s, c);
    // 0: before the first token, 1: inside it, 2: between the two,
    // 3: inside the second, 4: past the second.
    let mut phase: u8 = 0;
    let mut first = String::new();
    let mut second = String::new();
    proof {
        lemma_scan(s, 0, true);
        lemma_scan(s, a, false);
        lemma_scan(s, b, true);
        lemma_scan(s, c, false);
    }
    for ch in it: line.chars()
        invariant
            it.seq() == s,
            s == line@,
            a == token_start(s, 0),
            b == token_end(s, a),
            c == token_start(s, b),
            d == token_end(s, c),
            0 <= a <= b <= c <= d <= s.len(),
            phase <= 4,
            phase == 0 ==> scan(s, it.index() as int, true) == a && first@.len() == 0
                && second@.len() == 0,
            phase == 1 ==> a < it.index() && scan(s, it.index() as int, false) == b && first@
                == s.subrange(a, it.index() as int) && second@.len() == 0,
            phase == 2 ==> a < b <= it.index() && scan(s, it.index() as int, true) == c && first@
                == s.subrange(a, b) && second@.len() == 0,
            phase == 3 ==> a < b < c < it.index() && scan(s, it.index() as int, false) == d
                && first@ == s.subrange(a, b) && second@ == s.subrange(c, it.index() as int),
            phase == 4 ==> a < b < c < d && c < s.len() && first@ == s.subrange(a, b) && second@
                == s.subrange(c, d),
    {
        let ghost i = it.index() as int;
        proof {
            lemma_scan_step(s, i, true);
            lemma_scan_step(s, i, false);
            lemma_scan(s, a, false);
            lemma_scan(s, c, false);
        }
        let blank = char_is_whitespace(ch);
        if phase == 0 {
            if !blank {
                first.push(ch);
                phase = 1;
                assert(first@ =~= s.subrange(a, i + 1));
            }
        } else if phase == 1 {
            if blank {
                phase = 2;
            } else {
                first.push(ch);
                assert(first@ =~= s.subrange(a, i + 1));
            }
        } else if phase == 2 {
            if !blank {
                second.push(ch);
                phase = 3;
                assert(second@ =~= s.subrange(c, i + 1));
            }
        } else if phase == 3 {
            if blank {
                phase = 4;
            } else {
                second.push(ch);
                assert(second@ =~= s.subrange(c, i + 1));
            }
        }
    }
    if phase >= 3 {
        Some((first, second))
    } else {
        None
    }
}

} // verus!
