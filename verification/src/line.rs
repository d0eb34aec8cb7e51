//! The line reader: bytes in, one line out at each line feed.
//!
//! A line ends at a line feed. Carriage returns are dropped wherever they
//! stand, not only before the line feed. Every other byte becomes one
//! character of the line.

use crate::stream::ByteStream;
use crate::text::{byte_to_char, decode};
use vstd::prelude::*;

verus! {

pub const LINE_FEED: u8 = 0x0a;

pub const CARRIAGE_RETURN: u8 = 0x0d;

/// `s` without its carriage returns.
pub open spec fn strip_cr(s: Seq<u8>) -> Seq<u8> {
    s.filter(|b: u8| b != CARRIAGE_RETURN)
}

/// The index of the first line feed at or after `from`; the length of `s` if
/// there is none.
pub open spec fn line_feed_from(s: Seq<u8>, from: int) -> int
    decreases s.len() - from,
{
    if 0 <= from < s.len() && s[from] != LINE_FEED {
        line_feed_from(s, from + 1)
    } else {
        from
    }
}

/// Where the first line of `s` ends: the index of its first line feed, or
/// the length of `s` if it holds none.
pub open spec fn line_end(s: Seq<u8>) -> int {
    line_feed_from(s, 0)
}

/// Whether `s` holds a whole line, that is, a line feed.
pub open spec fn has_line(s: Seq<u8>) -> bool {
    line_end(s) < s.len()
}

/// The first line of `s`: what stands before its first line feed, without
/// carriage returns, as characters.
pub open spec fn first_line(s: Seq<u8>) -> Seq<char> {
    decode(strip_cr(s.take(line_end(s))))
}

/// What follows the first line of `s` and its line feed.
pub open spec fn after_line(s: Seq<u8>) -> Seq<u8> {
    s.skip(line_end(s) + 1)
}

/// The search for a line feed stays within `s`, passes over no line feed,
/// and stops at one if it stops before the end.
pub proof fn lemma_line_feed_from(s: Seq<u8>, from: int)
    requires
        0 <= from <= s.len(),
    ensures
        from <= line_feed_from(s, from) <= s.len(),
        forall|i: int| from <= i < line_feed_from(s, from) ==> s[i] != LINE_FEED,
        line_feed_from(s, from) < s.len() ==> s[line_feed_from(s, from)] == LINE_FEED,
    decreases s.len() - from,
{
    if from < s.len() && s[from] != LINE_FEED {
        lemma_line_feed_from(s, from + 1);
    }
}

/// If no line feed stands in `s` from `from` up to `at`, the search from
/// `from` is the search from `at`.
pub proof fn lemma_line_feed_skip(s: Seq<u8>, from: int, at: int)
    requires
        0 <= from <= at <= s.len(),
        forall|i: int| from <= i < at ==> s[i] != LINE_FEED,
    ensures
        line_feed_from(s, from) == line_feed_from(s, at),
    decreases at - from,
{
    if from < at {
        lemma_line_feed_skip(s, from + 1, at);
    }
}

/// One more byte at the end of `s` adds one character to the line, unless
/// it is a carriage return, which adds nothing.
pub proof fn lemma_strip_push(s: Seq<u8>, byte: u8)
    ensures
        decode(strip_cr(s.push(byte))) == if byte == CARRIAGE_RETURN {
            decode(strip_cr(s))
        } else {
            decode(strip_cr(s)).push(byte as char)
        },
{
    reveal(Seq::filter);
    assert(s.push(byte).drop_last() =~= s);
    if byte != CARRIAGE_RETURN {
        assert(decode(strip_cr(s).push(byte)) =~= decode(strip_cr(s)).push(byte as char));
    }
}

/// A line is its bytes without the carriage returns, wherever they stand:
/// for a byte sequence `s` that holds no line feed, the first line of `s`
/// followed by a line feed is `s` with every carriage return removed, and
/// nothing is left after it.
pub proof fn lemma_line_is_bytes_without_carriage_returns(s: Seq<u8>)
    requires
        !s.contains(LINE_FEED),
    ensures
        has_line(s.push(LINE_FEED)),
        first_line(s.push(LINE_FEED)) == decode(strip_cr(s)),
        !first_line(s.push(LINE_FEED)).contains('\r'),
        first_line(s.push(LINE_FEED)).len() == s.len() - s.filter(
            |b: u8| b == CARRIAGE_RETURN,
        ).len(),
        after_line(s.push(LINE_FEED)) == Seq::<u8>::empty(),
{
    let t = s.push(LINE_FEED);
    assert forall|i: int| 0 <= i < s.len() implies t[i] != LINE_FEED by {
        assert(s.contains(s[i]));
    }
    lemma_line_feed_skip(t, 0, s.len() as int);
    assert(t.take(s.len() as int) =~= s);
    assert(after_line(t) =~= Seq::<u8>::empty());
    lemma_strip_cr(s);
}

/// Stripping removes exactly the carriage returns: none is left, and the
/// length falls by their number.
pub proof fn lemma_strip_cr(s: Seq<u8>)
    ensures
        !decode(strip_cr(s)).contains('\r'),
        decode(strip_cr(s)).len() == s.len() - s.filter(|b: u8| b == CARRIAGE_RETURN).len(),
    decreases s.len(),
{
    let line = decode(strip_cr(s));
    reveal(Seq::filter);
    if s.len() > 0 {
        lemma_strip_cr(s.drop_last());
        assert(s.drop_last().push(s.last()) =~= s);
        lemma_strip_push(s.drop_last(), s.last());
        let before = decode(strip_cr(s.drop_last()));
        assert forall|i: int| 0 <= i < line.len() implies line[i] != '\r' by {
            if i < before.len() {
                assert(before.contains(before[i]));
            } else {
                assert(s.last() != CARRIAGE_RETURN);
                assert(line[i] == s.last() as char);
            }
        }
    } else {
        assert(line.len() == 0);
    }
}

/// Searching `s` from `from + 1` is searching `s` without its first byte
/// from `from`, one place further on.
proof fn lemma_line_feed_shift(s: Seq<u8>, from: int)
    requires
        0 <= from < s.len(),
    ensures
        line_feed_from(s, from + 1) == line_feed_from(s.skip(1), from) + 1,
    decreases s.len() - from,
{
    if from + 1 < s.len() && s[from + 1] != LINE_FEED {
        lemma_line_feed_shift(s, from + 1);
    }
}

/// The characters that one byte adds to a line: none for a carriage return,
/// else its own.
pub open spec fn line_chars(byte: u8) -> Seq<char> {
    if byte == CARRIAGE_RETURN {
        Seq::<char>::empty()
    } else {
        seq![byte as char]
    }
}

/// How the first byte of `s` bears on its first line. A line feed ends the
/// line at once. Any other byte goes before the first line of the rest,
/// and leaves what follows that line as it is; if the rest holds no line,
/// neither does `s`.
pub proof fn lemma_first_byte(s: Seq<u8>)
    requires
        s.len() > 0,
    ensures
        s[0] == LINE_FEED ==> has_line(s) && first_line(s) == Seq::<char>::empty() && after_line(s)
            == s.skip(1),
        s[0] != LINE_FEED ==> has_line(s) == has_line(s.skip(1)) && first_line(s) == line_chars(
            s[0],
        ) + first_line(s.skip(1)),
        s[0] != LINE_FEED && has_line(s) ==> after_line(s) == after_line(s.skip(1)),
        decode(strip_cr(s)) == line_chars(s[0]) + decode(strip_cr(s.skip(1))),
{
    reveal(Seq::filter);
    let keep = |b: u8| b != CARRIAGE_RETURN;
    let head = seq![s[0]];
    let tail = s.skip(1);
    assert(head.drop_last() =~= Seq::<u8>::empty());
    assert(strip_cr(Seq::<u8>::empty()) =~= Seq::<u8>::empty());
    assert(strip_cr(head) =~= if s[0] == CARRIAGE_RETURN {
        Seq::<u8>::empty()
    } else {
        head
    });
    assert(decode(strip_cr(head)) =~= line_chars(s[0]));
    assert(s =~= head + tail);
    Seq::filter_distributes_over_add(head, tail, keep);
    assert(decode(strip_cr(head) + strip_cr(tail)) =~= decode(strip_cr(head)) + decode(
        strip_cr(tail),
    ));
    if s[0] == LINE_FEED {
        assert(s.take(0) =~= Seq::<u8>::empty());
        assert(first_line(s) =~= Seq::<char>::empty());
    } else {
        lemma_line_feed_shift(s, 0);
        lemma_line_feed_from(tail, 0);
        let end = line_end(tail);
        assert(line_end(s) == end + 1);
        assert(s.take(end + 1) =~= head + tail.take(end));
        Seq::filter_distributes_over_add(head, tail.take(end), keep);
        assert(decode(strip_cr(head) + strip_cr(tail.take(end))) =~= decode(strip_cr(head))
            + decode(strip_cr(tail.take(end))));
        if has_line(s) {
            assert(s.skip(end + 2) =~= tail.skip(end + 1));
        }
    }
}

/// Collects the characters of the line being received.
#[derive(Debug)]
pub struct LineReader {
    line: String,
}

impl View for LineReader {
    type V = Seq<char>;

    /// The characters received since the last line feed.
    closed spec fn view(&self) -> Seq<char> {
        self.line@
    }
}

impl LineReader {
    /// A reader at the start of a line.
    pub fn new() -> (reader: LineReader)
        ensures
            reader@ == Seq::<char>::empty(),
    {
        LineReader { line: String::new() }
    }

    /// Takes in one byte. A line feed completes the line: it is handed out
    /// and the reader starts the next one. A carriage return is dropped.
    /// Any other byte adds its character to the line.
    pub fn feed(&mut self, byte: u8) -> (line: Option<String>)
        ensures
            match line {
                Some(l) => byte == LINE_FEED && l@ == old(self)@ && final(self)@ == Seq::<
                    char,
                >::empty(),
                None => byte != LINE_FEED && final(self)@ == if byte == CARRIAGE_RETURN {
                    old(self)@
                } else {
                    old(self)@.push(byte as char)
                },
            },
    {
        if byte == LINE_FEED {
            let mut line = String::new();
            core::mem::swap(&mut self.line, &mut line);
            Some(line)
        } else {
            if byte != CARRIAGE_RETURN {
                self.line.push(byte_to_char(byte));
            }
            None
        }
    }

    /// Ends the reader and hands out the unfinished line.
    pub fn into_partial(self) -> (line: String)
        ensures
            line@ == self@,
    {
        self.line
    }
}

/// The stream ran out before the line feed that ends a line.
#[derive(Clone, Copy, Debug, PartialEq, Eq, Structural)]
pub struct EndOfStream;

/// Reads one line from `stream` into `buf`, whatever `buf` held before, and
/// returns the number of characters of the line. The line's bytes and its
/// line feed are taken from the stream. If the stream holds no line feed,
/// it is read to its end, `buf` holds what was read, and the call fails.
pub fn read_line(stream: &mut ByteStream, buf: &mut String) -> (count: Result<usize, EndOfStream>)
    ensures
        match count {
            Ok(n) => {
                &&& has_line(old(stream).remaining())
                &&& n == first_line(old(stream).remaining()).len()
                &&& final(buf)@ == first_line(old(stream).remaining())
                &&& final(stream).remaining() == after_line(old(stream).remaining())
            },
            Err(_) => {
                &&& !has_line(old(stream).remaining())
                &&& final(buf)@ == decode(strip_cr(old(stream).remaining()))
                &&& final(stream).remaining() == Seq::<u8>::empty()
            },
        },
{
    let ghost all = stream.remaining();
    let ghost taken: int = 0;
    let available = stream.len();
    let mut reader = LineReader::new();
    let mut count: usize = 0;
    proof {
        reveal(Seq::filter);
        assert(decode(strip_cr(all.take(0))) =~= Seq::<char>::empty());
        assert(all.skip(0) =~= all);
    }
    loop
        invariant
            all == old(stream).remaining(),
            all.len() == available,
            0 <= taken <= all.len(),
            stream.remaining() == all.skip(taken),
            forall|i: int| 0 <= i < taken ==> all[i] != LINE_FEED,
            reader@ == decode(strip_cr(all.take(taken))),
            count == reader@.len(),
            count <= taken,
        decreases all.len() - taken,
    {
        match stream.next() {
            Some(byte) => {
                proof {
                    assert(byte == all[taken]);
                    assert(all.take(taken + 1) =~= all.take(taken).push(byte));
                    lemma_strip_push(all.take(taken), byte);
                    assert(all.skip(taken).skip(1) =~= all.skip(taken + 1));
                }
                match reader.feed(byte) {
                    Some(line) => {
                        proof {
                            lemma_line_feed_skip(all, 0, taken);
                        }
                        *buf = line;
                        return Ok(count);
                    },
                    None => {
                        if byte != CARRIAGE_RETURN {
                            count = count + 1;
                        }
                        proof {
                            taken = taken + 1;
                        }
                    },
                }
            },
            None => {
                proof {
                    lemma_line_feed_skip(all, 0, taken);
                    assert(all.take(taken) =~= all);
                    assert(stream.remaining() =~= Seq::<u8>::empty());
                }
                *buf = reader.into_partial();
                return Err(EndOfStream);
            },
        }
    }
}

} // verus!
