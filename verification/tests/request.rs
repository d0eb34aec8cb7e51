use rhs::headers::HeaderMap;
use rhs::request::{
    read_request, HttpRequest, ParseStep, ReadStep, RequestError, RequestParser, RequestReader,
};
use rhs::stream::ByteStream;

fn s(text: &str) -> String {
    String::from(text)
}

fn parse(input: &[u8]) -> (Result<HttpRequest, RequestError>, usize) {
    let mut stream = ByteStream::new(input.to_vec());
    let request = read_request(&mut stream);
    (request, stream.len())
}

fn entries(headers: &HeaderMap) -> Vec<(String, String)> {
    let mut all = Vec::new();
    let mut i = 0;
    while i < headers.len() {
        all.push((headers.key_at(i).clone(), headers.value_at(i).clone()));
        i += 1;
    }
    all
}

fn expect_get(request: Result<HttpRequest, RequestError>) -> (String, Vec<(String, String)>) {
    match request {
        Ok(HttpRequest::Get { path, headers }) => (path, entries(&headers)),
        other => panic!("not a GET: {:?}", other),
    }
}

fn feed_all(input: &[u8]) -> (Option<Result<HttpRequest, RequestError>>, usize) {
    let mut reader = RequestReader::new();
    let mut used = 0;
    for byte in input {
        used += 1;
        match reader.feed(*byte) {
            ReadStep::More(next) => reader = next,
            ReadStep::Done(request) => return (Some(Ok(request)), used),
            ReadStep::Malformed => return (Some(Err(RequestError::Malformed)), used),
        }
    }
    (None, used)
}

#[test]
fn get_with_one_header_is_parsed() {
    let (request, left) = parse(b"GET /foo HTTP/1.1\r\nHost example.com\r\n\r\n");
    let (path, headers) = expect_get(request);
    assert_eq!(path, "/foo");
    assert_eq!(headers, vec![(s("Host"), s("example.com"))]);
    assert_eq!(left, 0);
}

#[test]
fn post_is_unsupported() {
    let (request, left) = parse(b"POST /x HTTP/1.1\r\n\r\n");
    assert!(matches!(request, Ok(HttpRequest::Unsupported)));
    assert_eq!(left, 0);
}

#[test]
fn unsupported_request_still_reads_its_headers() {
    let (request, left) = parse(b"DELETE /x HTTP/1.1\r\nHost a\r\nAccept b\r\n\r\nbody");
    assert!(matches!(request, Ok(HttpRequest::Unsupported)));
    assert_eq!(left, 4);
}

#[test]
fn method_is_matched_exactly() {
    assert!(matches!(parse(b"get / HTTP/1.1\n\n").0, Ok(HttpRequest::Unsupported)));
    assert!(matches!(parse(b"Get / HTTP/1.1\n\n").0, Ok(HttpRequest::Unsupported)));
    assert!(matches!(parse(b"GETS / HTTP/1.1\n\n").0, Ok(HttpRequest::Unsupported)));
    assert!(matches!(parse(b"GE / HTTP/1.1\n\n").0, Ok(HttpRequest::Unsupported)));
    assert!(matches!(parse(b"GET / HTTP/1.1\n\n").0, Ok(HttpRequest::Get { .. })));
}

#[test]
fn path_is_kept_as_received() {
    let (path, _) = expect_get(parse(b"GET /a%20b/../c?q=1#f HTTP/1.1\r\n\r\n").0);
    assert_eq!(path, "/a%20b/../c?q=1#f");
}

#[test]
fn version_is_not_needed() {
    let (path, headers) = expect_get(parse(b"GET /only\n\n").0);
    assert_eq!(path, "/only");
    assert_eq!(headers, vec![]);
}

#[test]
fn header_value_ends_at_its_first_whitespace() {
    let input = b"GET / HTTP/1.1\r\nUser-Agent: curl 8.0\r\nAccept text/html, text/plain\r\n\r\n";
    let (_, headers) = expect_get(parse(input).0);
    assert_eq!(headers, vec![(s("User-Agent:"), s("curl")), (s("Accept"), s("text/html,"))]);
}

#[test]
fn later_header_replaces_earlier_one_of_the_same_name() {
    let input = b"GET / HTTP/1.1\nHost a\nAccept x\nHost b\n\n";
    let (_, headers) = expect_get(parse(input).0);
    assert_eq!(headers, vec![(s("Host"), s("b")), (s("Accept"), s("x"))]);
}

#[test]
fn nothing_is_read_after_the_empty_line() {
    let (request, left) = parse(b"GET / HTTP/1.1\r\n\r\nGET /next HTTP/1.1\r\n\r\n");
    assert!(matches!(request, Ok(HttpRequest::Get { .. })));
    assert_eq!(left, 22);
}

#[test]
fn request_line_with_one_token_is_malformed() {
    let (request, left) = parse(b"GET\r\nHost a\r\n\r\n");
    assert!(matches!(request, Err(RequestError::Malformed)));
    assert_eq!(left, 10);
}

#[test]
fn empty_request_line_is_malformed() {
    assert!(matches!(parse(b"\r\n\r\n").0, Err(RequestError::Malformed)));
}

#[test]
fn header_line_with_one_token_is_malformed() {
    let (request, left) = parse(b"GET / HTTP/1.1\r\nHost\r\n\r\n");
    assert!(matches!(request, Err(RequestError::Malformed)));
    assert_eq!(left, 2);
}

#[test]
fn header_line_of_blanks_is_malformed_not_the_end() {
    assert!(matches!(parse(b"GET / HTTP/1.1\r\n  \r\n\r\n").0, Err(RequestError::Malformed)));
}

#[test]
fn request_without_its_empty_line_is_incomplete() {
    let (request, left) = parse(b"GET / HTTP/1.1\r\nHost a\r\n");
    assert!(matches!(request, Err(RequestError::EndOfStream)));
    assert_eq!(left, 0);
    assert!(matches!(parse(b"").0, Err(RequestError::EndOfStream)));
    assert!(matches!(parse(b"GET / HTTP/1.1").0, Err(RequestError::EndOfStream)));
}

#[test]
fn parser_goes_from_request_line_to_headers_to_done() {
    let parser = RequestParser::new();
    assert!(matches!(parser, RequestParser::ReadInitial));
    let parser = match parser.feed_line("GET /p HTTP/1.1") {
        ParseStep::More(next) => next,
        other => panic!("{:?}", other),
    };
    match &parser {
        RequestParser::ReadHeaders { method, path, headers } => {
            assert_eq!(method, "GET");
            assert_eq!(path, "/p");
            assert_eq!(headers.len(), 0);
        },
        other => panic!("{:?}", other),
    }
    let parser = match parser.feed_line("K V") {
        ParseStep::More(next) => next,
        other => panic!("{:?}", other),
    };
    match parser.feed_line("") {
        ParseStep::Done(HttpRequest::Get { path, headers }) => {
            assert_eq!(path, "/p");
            assert_eq!(entries(&headers), vec![(s("K"), s("V"))]);
        },
        other => panic!("{:?}", other),
    }
}

#[test]
fn parser_rejects_short_lines() {
    assert!(matches!(RequestParser::new().feed_line("GET"), ParseStep::Malformed));
    assert!(matches!(RequestParser::new().feed_line(""), ParseStep::Malformed));
    let parser = match RequestParser::new().feed_line("GET /") {
        ParseStep::More(next) => next,
        other => panic!("{:?}", other),
    };
    assert!(matches!(parser.feed_line("lonely"), ParseStep::Malformed));
}

#[test]
fn bytes_fed_one_by_one_give_the_same_request() {
    let input = b"GET /foo HTTP/1.1\r\nHost example.com\r\n\r\ntrailing";
    let (outcome, used) = feed_all(input);
    let (path, headers) = expect_get(outcome.unwrap());
    assert_eq!(path, "/foo");
    assert_eq!(headers, vec![(s("Host"), s("example.com"))]);
    assert_eq!(used, input.len() - 8);

    let (outcome, used) = feed_all(b"POST /x HTTP/1.1\r\n\r\n");
    assert!(matches!(outcome, Some(Ok(HttpRequest::Unsupported))));
    assert_eq!(used, 20);
}

#[test]
fn bytes_fed_one_by_one_stop_at_a_malformed_line() {
    let (outcome, used) = feed_all(b"GET / HTTP/1.1\nbad\nHost a\n\n");
    assert!(matches!(outcome, Some(Err(RequestError::Malformed))));
    assert_eq!(used, 19);
}

#[test]
fn bytes_fed_one_by_one_ask_for_more_until_the_empty_line() {
    assert!(feed_all(b"GET / HTTP/1.1\r\nHost a\r\n").0.is_none());
    assert!(feed_all(b"GET / HTT").0.is_none());
    assert!(feed_all(b"").0.is_none());
}

#[test]
fn bytes_above_ascii_are_characters_of_the_path() {
    let (path, _) = expect_get(parse(&[b'G', b'E', b'T', b' ', b'/', 0xe9, b'\n', b'\n']).0);
    assert_eq!(path, "/\u{e9}");
    let (path, _) = expect_get(parse(&[b'G', b'E', b'T', 0xa0, b'/', b'x', b'\n', b'\n']).0);
    assert_eq!(path, "/x");
}
