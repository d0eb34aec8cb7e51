use rhs::line::{read_line, EndOfStream, LineReader};
use rhs::stream::ByteStream;

fn line_of(input: &[u8]) -> (Result<usize, EndOfStream>, String, usize) {
    let mut stream = ByteStream::new(input.to_vec());
    let mut buf = String::from("left over from the line before");
    let count = read_line(&mut stream, &mut buf);
    (count, buf, stream.len())
}

#[test]
fn line_ends_at_line_feed() {
    let (count, line, left) = line_of(b"hello\nworld\n");
    assert_eq!(count, Ok(5));
    assert_eq!(line, "hello");
    assert_eq!(left, 6);
}

#[test]
fn crlf_and_lf_give_the_same_line() {
    assert_eq!(line_of(b"GET / HTTP/1.1\r\n").1, "GET / HTTP/1.1");
    assert_eq!(line_of(b"GET / HTTP/1.1\n").1, "GET / HTTP/1.1");
}

#[test]
fn carriage_returns_are_dropped_wherever_they_stand() {
    let (count, line, left) = line_of(b"\ra\r\rb\rc\r\r\n");
    assert_eq!(count, Ok(3));
    assert_eq!(line, "abc");
    assert_eq!(left, 0);
}

#[test]
fn line_of_carriage_returns_only_is_empty() {
    let (count, line, _) = line_of(b"\r\r\r\n");
    assert_eq!(count, Ok(0));
    assert_eq!(line, "");
}

#[test]
fn empty_line_has_no_characters() {
    let (count, line, left) = line_of(b"\nrest");
    assert_eq!(count, Ok(0));
    assert_eq!(line, "");
    assert_eq!(left, 4);
}

#[test]
fn buffer_is_cleared_before_each_line() {
    let mut stream = ByteStream::new(b"first\nsecond\n".to_vec());
    let mut buf = String::new();
    assert_eq!(read_line(&mut stream, &mut buf), Ok(5));
    assert_eq!(buf, "first");
    assert_eq!(read_line(&mut stream, &mut buf), Ok(6));
    assert_eq!(buf, "second");
    assert_eq!(stream.len(), 0);
}

#[test]
fn stream_without_line_feed_fails() {
    let (count, line, left) = line_of(b"no end\r here");
    assert_eq!(count, Err(EndOfStream));
    assert_eq!(line, "no end here");
    assert_eq!(left, 0);
}

#[test]
fn empty_stream_fails() {
    let (count, line, left) = line_of(b"");
    assert_eq!(count, Err(EndOfStream));
    assert_eq!(line, "");
    assert_eq!(left, 0);
}

#[test]
fn each_byte_is_one_character() {
    let (count, line, _) = line_of(&[0x63, 0x61, 0x66, 0xe9, 0x00, 0xff, 0x0a]);
    assert_eq!(count, Ok(6));
    assert_eq!(line, "caf\u{e9}\u{0}\u{ff}");
    assert_eq!(line.chars().count(), 6);
}

#[test]
fn reader_hands_out_line_at_line_feed_and_starts_over() {
    let mut reader = LineReader::new();
    assert_eq!(reader.feed(b'a'), None);
    assert_eq!(reader.feed(b'\r'), None);
    assert_eq!(reader.feed(b'b'), None);
    assert_eq!(reader.feed(b'\n'), Some(String::from("ab")));
    assert_eq!(reader.feed(b'c'), None);
    assert_eq!(reader.feed(b'\n'), Some(String::from("c")));
    assert_eq!(reader.feed(b'\n'), Some(String::new()));
}

#[test]
fn reader_gives_up_its_partial_line() {
    let mut reader = LineReader::new();
    assert_eq!(reader.feed(b'x'), None);
    assert_eq!(reader.feed(b'\r'), None);
    assert_eq!(reader.feed(b'y'), None);
    assert_eq!(reader.into_partial(), "xy");
}

#[test]
fn stream_delivers_bytes_in_order() {
    let mut stream = ByteStream::new(vec![1, 2, 3]);
    assert_eq!(stream.len(), 3);
    assert_eq!(stream.next(), Some(1));
    assert_eq!(stream.next(), Some(2));
    assert_eq!(stream.len(), 1);
    assert_eq!(stream.next(), Some(3));
    assert_eq!(stream.next(), None);
    assert_eq!(stream.next(), None);
    assert_eq!(stream.len(), 0);
}
