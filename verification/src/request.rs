//! The request parser.
//!
//! A request is a request line, header lines, and an empty line. Of the
//! request line the first two whitespace-delimited tokens are the method and
//! the path. Of each header line the first two tokens are a name and a
//! value; what follows them on the line is dropped, so a value ends at its
//! first whitespace. A later header of the same name replaces the earlier
//! one. A line with fewer than two tokens, other than the empty line that
//! ends the headers, is malformed.

use crate::headers::{insert_entry, Entries, HeaderMap};
use crate::line::{
    after_line, first_line, has_line, lemma_first_byte, lemma_line_feed_from, line_chars,
    read_line, strip_cr, LineReader, CARRIAGE_RETURN, LINE_FEED,
};
use crate::stream::ByteStream;
use crate::text::{decode, first_two_tokens, split_two};
use vstd::prelude::*;
use vstd::string::StringExecFns;

verus! {

/// A request as the server sees it.
#[derive(Debug)]
pub enum HttpRequest {
    /// A `GET` for `path`, the request-target as it was received.
    Get { path: String, headers: HeaderMap },
    /// Any other method. The headers that came with it are dropped.
    Unsupported,
}

/// What an `HttpRequest` holds.
pub enum RequestModel {
    Get { path: Seq<char>, headers: Entries },
    Unsupported,
}

impl View for HttpRequest {
    type V = RequestModel;

    open spec fn view(&self) -> RequestModel {
        match self {
            HttpRequest::Get { path, headers } => RequestModel::Get {
                path: path@,
                headers: headers.entries(),
            },
            HttpRequest::Unsupported => RequestModel::Unsupported,
        }
    }
}

/// A parser between two lines.
#[derive(Debug)]
pub enum RequestParser {
    /// Nothing read yet: the request line comes next.
    ReadInitial,
    /// The request line has been read: header lines follow.
    ReadHeaders { method: String, path: String, headers: HeaderMap },
}

/// What a `RequestParser` holds.
pub enum ParserModel {
    ReadInitial,
    ReadHeaders { method: Seq<char>, path: Seq<char>, headers: Entries },
}

impl View for RequestParser {
    type V = ParserModel;

    open spec fn view(&self) -> ParserModel {
        match self {
            RequestParser::ReadInitial => ParserModel::ReadInitial,
            RequestParser::ReadHeaders { method, path, headers } => ParserModel::ReadHeaders {
                method: method@,
                path: path@,
                headers: headers.entries(),
            },
        }
    }
}

/// What one line does to a parser.
#[derive(Debug)]
pub enum ParseStep {
    /// The request goes on.
    More(RequestParser),
    /// The line was the empty line that ends the request.
    Done(HttpRequest),
    /// The line holds fewer than two tokens.
    Malformed,
}

/// What a `ParseStep` holds.
pub enum StepModel {
    More(ParserModel),
    Done(RequestModel),
    Malformed,
}

impl View for ParseStep {
    type V = StepModel;

    open spec fn view(&self) -> StepModel {
        match self {
            ParseStep::More(parser) => StepModel::More(parser@),
            ParseStep::Done(request) => StepModel::Done(request@),
            ParseStep::Malformed => StepModel::Malformed,
        }
    }
}

/// The request that a method, a path and headers amount to: a `GET`, spelled
/// exactly so, keeps its path and headers; anything else is unsupported.
pub open spec fn classify(method: Seq<char>, path: Seq<char>, headers: Entries) -> RequestModel {
    if method == "GET"@ {
        RequestModel::Get { path, headers }
    } else {
        RequestModel::Unsupported
    }
}

/// What `line` does to `parser`.
pub open spec fn step(parser: ParserModel, line: Seq<char>) -> StepModel {
    match parser {
        ParserModel::ReadInitial => match first_two_tokens(line) {
            Some((method, path)) => StepModel::More(
                ParserModel::ReadHeaders { method, path, headers: Entries::empty() },
            ),
            None => StepModel::Malformed,
        },
        ParserModel::ReadHeaders { method, path, headers } => if line.len() == 0 {
            StepModel::Done(classify(method, path, headers))
        } else {
            match first_two_tokens(line) {
                Some((name, value)) => StepModel::More(
                    ParserModel::ReadHeaders {
                        method,
                        path,
                        headers: insert_entry(headers, name, value),
                    },
                ),
                None => StepModel::Malformed,
            }
        },
    }
}

/// What a byte sequence amounts to when read as a request.
pub enum Parsed {
    /// A whole request, and the bytes that follow it.
    Request { request: RequestModel, rest: Seq<u8> },
    /// A malformed line, and the bytes that follow it.
    Malformed { rest: Seq<u8> },
    /// The bytes end before the request does.
    Incomplete,
}

/// Reads `s` line by line, starting from `parser`.
pub open spec fn parse_from(parser: ParserModel, s: Seq<u8>) -> Parsed
    decreases s.len(),
{
    if has_line(s) {
        proof {
            lemma_line_feed_from(s, 0);
        }
        match step(parser, first_line(s)) {
            StepModel::More(next) => parse_from(next, after_line(s)),
            StepModel::Done(request) => Parsed::Request { request, rest: after_line(s) },
            StepModel::Malformed => Parsed::Malformed { rest: after_line(s) },
        }
    } else {
        Parsed::Incomplete
    }
}

/// Reads `s` as a request.
pub open spec fn parse_request(s: Seq<u8>) -> Parsed {
    parse_from(ParserModel::ReadInitial, s)
}

impl RequestParser {
    /// A parser that has read nothing.
    pub fn new() -> (parser: RequestParser)
        ensures
            parser@ == ParserModel::ReadInitial,
    {
        RequestParser::ReadInitial
    }

    /// Takes in one line, without its terminator.
    pub fn feed_line(self, line: &str) -> (next: ParseStep)
        ensures
            next@ == step(self@, line@),
    {
        match self {
            RequestParser::ReadInitial => match split_two(line) {
                Some((method, path)) => ParseStep::More(
                    RequestParser::ReadHeaders { method, path, headers: HeaderMap::new() },
                ),
                None => ParseStep::Malformed,
            },
            RequestParser::ReadHeaders { method, path, headers } => {
                if line.is_empty() {
                    if method == String::from_str("GET") {
                        ParseStep::Done(HttpRequest::Get { path, headers })
                    } else {
                        ParseStep::Done(HttpRequest::Unsupported)
                    }
                } else {
                    match split_two(line) {
                        Some((name, value)) => {
                            let mut headers = headers;
                            headers.insert(name, value);
                            ParseStep::More(RequestParser::ReadHeaders { method, path, headers })
                        },
                        None => ParseStep::Malformed,
                    }
                }
            },
        }
    }
}

/// Why no request could be read from a stream.
#[derive(Clone, Copy, Debug, PartialEq, Eq, Structural)]
pub enum RequestError {
    /// The stream ended before the request did.
    EndOfStream,
    /// A line of the request holds fewer than two tokens.
    Malformed,
}

/// Reads one request from `stream`: lines up to and including the empty line
/// that ends the headers. Nothing after that line is read. On a malformed
/// line reading stops after that line.
pub fn read_request(stream: &mut ByteStream) -> (request: Result<HttpRequest, RequestError>)
    ensures
        match parse_request(old(stream).remaining()) {
            Parsed::Request { request: parsed, rest } => {
                &&& request matches Ok(r)
                &&& r@ == parsed
                &&& final(stream).remaining() == rest
            },
            Parsed::Malformed { rest } => {
                &&& request == Err::<HttpRequest, RequestError>(RequestError::Malformed)
                &&& final(stream).remaining() == rest
            },
            Parsed::Incomplete => {
                &&& request == Err::<HttpRequest, RequestError>(RequestError::EndOfStream)
                &&& final(stream).remaining() == Seq::<u8>::empty()
            },
        },
{
    let mut parser = RequestParser::new();
    let mut buffer = String::new();
    loop
        invariant
            parse_request(old(stream).remaining()) == parse_from(parser@, stream.remaining()),
        decreases stream.remaining().len(),
    {
        proof {
            lemma_line_feed_from(stream.remaining(), 0);
        }
        match read_line(stream, &mut buffer) {
            Ok(_) => {},
            Err(_) => {
                return Err(RequestError::EndOfStream);
            },
        }
        match parser.feed_line(buffer.as_str()) {
            ParseStep::More(next) => {
                parser = next;
            },
            ParseStep::Done(request) => {
                return Ok(request);
            },
            ParseStep::Malformed => {
                return Err(RequestError::Malformed);
            },
        }
    }
}

/// A request being received byte by byte: the line in progress and the
/// parser that takes the finished lines.
#[derive(Debug)]
pub struct RequestReader {
    pub line: LineReader,
    pub parser: RequestParser,
}

/// What a `RequestReader` holds.
pub struct ReaderModel {
    pub line: Seq<char>,
    pub parser: ParserModel,
}

impl View for RequestReader {
    type V = ReaderModel;

    open spec fn view(&self) -> ReaderModel {
        ReaderModel { line: self.line@, parser: self.parser@ }
    }
}

/// A reader that has received nothing.
pub open spec fn fresh_reader() -> ReaderModel {
    ReaderModel { line: Seq::<char>::empty(), parser: ParserModel::ReadInitial }
}

/// What one byte does to a reader.
#[derive(Debug)]
pub enum ReadStep {
    /// The request goes on: read another byte.
    More(RequestReader),
    /// The byte ended the request.
    Done(HttpRequest),
    /// The byte ended a malformed line.
    Malformed,
}

/// What a `ReadStep` holds.
pub enum ReadModel {
    More(ReaderModel),
    Done(RequestModel),
    Malformed,
}

impl View for ReadStep {
    type V = ReadModel;

    open spec fn view(&self) -> ReadModel {
        match self {
            ReadStep::More(reader) => ReadModel::More(reader@),
            ReadStep::Done(request) => ReadModel::Done(request@),
            ReadStep::Malformed => ReadModel::Malformed,
        }
    }
}

/// What `byte` does to `reader`: a line feed hands the line to the parser, a
/// carriage return changes nothing, any other byte adds its character to
/// the line.
pub open spec fn feed_byte(reader: ReaderModel, byte: u8) -> ReadModel {
    if byte == LINE_FEED {
        match step(reader.parser, reader.line) {
            StepModel::More(parser) => ReadModel::More(
                ReaderModel { line: Seq::<char>::empty(), parser },
            ),
            StepModel::Done(request) => ReadModel::Done(request),
            StepModel::Malformed => ReadModel::Malformed,
        }
    } else if byte == CARRIAGE_RETURN {
        ReadModel::More(reader)
    } else {
        ReadModel::More(ReaderModel { line: reader.line.push(byte as char), parser: reader.parser })
    }
}

/// What a reader comes to when it is fed the bytes of `s` in order. It
/// stops at the byte that ends the request or a malformed line; bytes after
/// that one are not looked at.
pub open spec fn feed_bytes(reader: ReaderModel, s: Seq<u8>) -> ReadModel
    decreases s.len(),
{
    if s.len() == 0 {
        ReadModel::More(reader)
    } else {
        match feed_byte(reader, s[0]) {
            ReadModel::More(next) => feed_bytes(next, s.skip(1)),
            ended => ended,
        }
    }
}

/// Feeding bytes to a reader works line by line. If `s` holds no line
/// feed, its characters join the line in progress. Otherwise the line in
/// progress, followed by the first line of `s`, goes to the parser, and
/// the rest of `s` is fed to what comes of that.
pub proof fn lemma_feed_bytes_by_line(reader: ReaderModel, s: Seq<u8>)
    ensures
        feed_bytes(reader, s) == if has_line(s) {
            match step(reader.parser, reader.line + first_line(s)) {
                StepModel::More(parser) => feed_bytes(
                    ReaderModel { line: Seq::<char>::empty(), parser },
                    after_line(s),
                ),
                StepModel::Done(request) => ReadModel::Done(request),
                StepModel::Malformed => ReadModel::Malformed,
            }
        } else {
            ReadModel::More(
                ReaderModel {
                    line: reader.line + decode(strip_cr(s)),
                    parser: reader.parser,
                },
            )
        },
    decreases s.len(),
{
    if s.len() == 0 {
        reveal(Seq::filter);
        assert(reader.line + decode(strip_cr(s)) =~= reader.line);
    } else {
        lemma_first_byte(s);
        if s[0] == LINE_FEED {
            assert(reader.line + first_line(s) =~= reader.line);
        } else {
            let next = ReaderModel { line: reader.line + line_chars(s[0]), parser: reader.parser };
            assert(reader.line + line_chars(s[0]) =~= if s[0] == CARRIAGE_RETURN {
                reader.line
            } else {
                reader.line.push(s[0] as char)
            });
            assert(feed_byte(reader, s[0]) == ReadModel::More(next));
            lemma_feed_bytes_by_line(next, s.skip(1));
            assert(next.line + first_line(s.skip(1)) =~= reader.line + first_line(s));
            assert(next.line + decode(strip_cr(s.skip(1))) =~= reader.line + decode(strip_cr(s)));
        }
    }
}

/// Feeding a reader byte by byte gives what parsing gives: fed the bytes of
/// `s`, a reader between two lines ends with the request that `s` parses
/// to, or finds the malformed line that parsing finds, or asks for more
/// when `s` ends before the request does.
pub proof fn lemma_feeding_is_parsing(parser: ParserModel, s: Seq<u8>)
    ensures
        match parse_from(parser, s) {
            Parsed::Request { request, rest } => feed_bytes(
                ReaderModel { line: Seq::<char>::empty(), parser },
                s,
            ) == ReadModel::Done(request),
            Parsed::Malformed { rest } => feed_bytes(
                ReaderModel { line: Seq::<char>::empty(), parser },
                s,
            ) == ReadModel::Malformed,
            Parsed::Incomplete => feed_bytes(
                ReaderModel { line: Seq::<char>::empty(), parser },
                s,
            ) is More,
        },
    decreases s.len(),
{
    let reader = ReaderModel { line: Seq::<char>::empty(), parser };
    lemma_feed_bytes_by_line(reader, s);
    if has_line(s) {
        lemma_line_feed_from(s, 0);
        assert(reader.line + first_line(s) =~= first_line(s));
        match step(parser, first_line(s)) {
            StepModel::More(next) => {
                lemma_feeding_is_parsing(next, after_line(s));
            },
            _ => {},
        }
    }
}

impl RequestReader {
    /// A reader that has received nothing.
    pub fn new() -> (reader: RequestReader)
        ensures
            reader@ == fresh_reader(),
    {
        RequestReader { line: LineReader::new(), parser: RequestParser::new() }
    }

    /// Takes in one byte.
    pub fn feed(self, byte: u8) -> (next: ReadStep)
        ensures
            next@ == feed_byte(self@, byte),
    {
        let mut line = self.line;
        match line.feed(byte) {
            Some(text) => match self.parser.feed_line(text.as_str()) {
                ParseStep::More(parser) => ReadStep::More(RequestReader { line, parser }),
                ParseStep::Done(request) => ReadStep::Done(request),
                ParseStep::Malformed => ReadStep::Malformed,
            },
            None => ReadStep::More(RequestReader { line, parser: self.parser }),
        }
    }
}

} // verus!
