//! The connection handler: one request in, one response out.
//!
//! A connection is a chain of steps. Each step says what the caller has to
//! do next (read a byte from the peer, read a file, send the response) and
//! holds what is needed to go on once that is done.
//!
//! A request with a method other than `GET` is answered with
//! `501 Not Implemented` and a `Server` header. A `GET` is answered with the
//! file that its path resolves to under the served directory, or with
//! `404 Not Found`; the headers of that response are the headers that the
//! request came with, and no `Server` header is added to them.

use crate::headers::{Entries, HeaderMap};
use crate::request::{
    feed_byte, feed_bytes, fresh_reader, lemma_feeding_is_parsing, parse_request, HttpRequest,
    Parsed, ParserModel, ReadModel, ReadStep, ReaderModel, RequestModel, RequestReader,
};
use crate::resolve::{
    file_step, file_target, index_of, read_file, resolve, FileStep, FileStepModel, read_in,
    target_of,
};
use crate::response::{HttpResponse, ResponseModel};
use crate::server::Config;
use vstd::prelude::*;
use vstd::string::StringExecFns;

verus! {

/// A `GET` whose file is being looked up.
#[derive(Debug)]
pub struct Pending {
    /// The served directory followed by the request path.
    pub path: String,
    /// Whether the file being read is the index file under `path`.
    pub trying_index: bool,
    /// The headers of the request.
    pub headers: HeaderMap,
}

/// What a `Pending` holds.
pub struct PendingModel {
    pub path: Seq<char>,
    pub trying_index: bool,
    pub headers: Entries,
}

impl View for Pending {
    type V = PendingModel;

    open spec fn view(&self) -> PendingModel {
        PendingModel {
            path: self.path@,
            trying_index: self.trying_index,
            headers: self.headers.entries(),
        }
    }
}

/// What the caller has to do next for a connection.
#[derive(Debug)]
pub enum Next {
    /// Read one byte from the peer and hand it to `on_byte`.
    ReadByte(RequestReader),
    /// Read the file `target` as text and hand the outcome to `on_file`.
    ReadFile { target: String, pending: Pending },
    /// Send the response; the connection is done.
    Respond(HttpResponse),
    /// The request is malformed; it has no answer.
    Malformed,
}

/// What a `Next` holds.
pub enum NextModel {
    ReadByte(ReaderModel),
    ReadFile { target: Seq<char>, pending: PendingModel },
    Respond(ResponseModel),
    Malformed,
}

impl View for Next {
    type V = NextModel;

    open spec fn view(&self) -> NextModel {
        match self {
            Next::ReadByte(reader) => NextModel::ReadByte(reader@),
            Next::ReadFile { target, pending } => NextModel::ReadFile {
                target: target@,
                pending: pending@,
            },
            Next::Respond(response) => NextModel::Respond(response@),
            Next::Malformed => NextModel::Malformed,
        }
    }
}

/// The response to a request whose method is not `GET`.
pub open spec fn not_implemented() -> ResponseModel {
    ResponseModel {
        status: "501 Not Implemented"@,
        headers: seq![("Server"@, "rhs/0.1"@)],
        body: "501 Not Implemented\nrhs/0.1"@,
    }
}

/// The step that follows a request: the answer to an unsupported one, the
/// first file to read for a `GET`.
pub open spec fn plan(dir: Seq<char>, request: RequestModel) -> NextModel {
    match request {
        RequestModel::Unsupported => NextModel::Respond(not_implemented()),
        RequestModel::Get { path, headers } => NextModel::ReadFile {
            target: dir + path,
            pending: PendingModel { path: dir + path, trying_index: false, headers },
        },
    }
}

/// The step that follows a byte from the peer.
pub open spec fn after_byte(dir: Seq<char>, reader: ReaderModel, byte: u8) -> NextModel {
    match feed_byte(reader, byte) {
        ReadModel::More(next) => NextModel::ReadByte(next),
        ReadModel::Done(request) => plan(dir, request),
        ReadModel::Malformed => NextModel::Malformed,
    }
}

/// The step that follows an attempt to read a file.
pub open spec fn after_file(pending: PendingModel, contents: Option<Seq<char>>) -> NextModel {
    match file_step(pending.trying_index, contents) {
        FileStepModel::Answer { status, body } => NextModel::Respond(
            ResponseModel { status, headers: pending.headers, body },
        ),
        FileStepModel::TryIndex => NextModel::ReadFile {
            target: index_of(pending.path),
            pending: PendingModel {
                path: pending.path,
                trying_index: true,
                headers: pending.headers,
            },
        },
    }
}

/// The response to `request` when the served directory is `dir` and the
/// readable files are `files`.
pub open spec fn answer(
    dir: Seq<char>,
    request: RequestModel,
    files: Map<Seq<char>, Seq<char>>,
) -> ResponseModel {
    match request {
        RequestModel::Unsupported => not_implemented(),
        RequestModel::Get { path, headers } => ResponseModel {
            status: resolve(files, dir + path).0,
            headers,
            body: resolve(files, dir + path).1,
        },
    }
}

/// Following the steps from a request, with each file read answered from
/// `files`, ends in the response that `answer` gives, after no more than
/// two reads: the second read, if there is one, is of the index file, and
/// no third is asked for.
pub proof fn lemma_steps_give_answer(
    dir: Seq<char>,
    request: RequestModel,
    files: Map<Seq<char>, Seq<char>>,
)
    ensures
        match plan(dir, request) {
            NextModel::Respond(response) => response == answer(dir, request, files),
            NextModel::ReadFile { target, pending } => match after_file(
                pending,
                read_in(files, target),
            ) {
                NextModel::Respond(response) => response == answer(dir, request, files),
                NextModel::ReadFile { target: second, pending: retry } => {
                    &&& second == index_of(target)
                    &&& after_file(retry, read_in(files, second)) == NextModel::Respond(
                        answer(dir, request, files),
                    )
                },
                _ => false,
            },
            _ => false,
        },
{
}

/// How many more steps a connection can take at most once no byte is left
/// to read.
pub open spec fn steps_left(next: NextModel) -> nat {
    match next {
        NextModel::ReadByte(_) => 3,
        NextModel::ReadFile { target, pending } => if pending.trying_index {
            1
        } else {
            2
        },
        _ => 0,
    }
}

/// Where a connection gets to from `next` when the peer sends the bytes of
/// `s` and each file read is answered from `files`: one of the steps that
/// end it, or a read of a byte that `s` no longer holds.
pub open spec fn run(
    dir: Seq<char>,
    next: NextModel,
    s: Seq<u8>,
    files: Map<Seq<char>, Seq<char>>,
) -> NextModel
    decreases s.len(), steps_left(next),
{
    match next {
        NextModel::ReadByte(reader) => if s.len() == 0 {
            next
        } else {
            run(dir, after_byte(dir, reader, s[0]), s.skip(1), files)
        },
        NextModel::ReadFile { target, pending } => run(
            dir,
            after_file(pending, read_in(files, target)),
            s,
            files,
        ),
        _ => next,
    }
}

/// Once the request has been read, what the peer sends no longer matters,
/// and the connection ends in the response that `answer` gives.
pub proof fn lemma_run_after_request(
    dir: Seq<char>,
    request: RequestModel,
    s: Seq<u8>,
    files: Map<Seq<char>, Seq<char>>,
)
    ensures
        run(dir, plan(dir, request), s, files) == NextModel::Respond(answer(dir, request, files)),
{
    lemma_steps_give_answer(dir, request, files);
    reveal_with_fuel(run, 4);
}

/// While the request is being read, a connection goes as its reader goes.
proof fn lemma_run_reads(
    dir: Seq<char>,
    reader: ReaderModel,
    s: Seq<u8>,
    files: Map<Seq<char>, Seq<char>>,
)
    ensures
        run(dir, NextModel::ReadByte(reader), s, files) == match feed_bytes(reader, s) {
            ReadModel::More(rest) => NextModel::ReadByte(rest),
            ReadModel::Done(request) => NextModel::Respond(answer(dir, request, files)),
            ReadModel::Malformed => NextModel::Malformed,
        },
    decreases s.len(),
{
    if s.len() > 0 {
        match feed_byte(reader, s[0]) {
            ReadModel::More(next) => {
                lemma_run_reads(dir, next, s.skip(1), files);
            },
            ReadModel::Done(request) => {
                lemma_run_after_request(dir, request, s.skip(1), files);
            },
            ReadModel::Malformed => {},
        }
    }
}

/// A connection from end to end. When the peer sends the bytes of `s`, the
/// served directory is `dir` and the readable files are `files`, the
/// connection ends in the response to the request that `s` parses to: for
/// a `GET`, the file that the directory followed by the path resolves to,
/// under the headers of the request; for any other method,
/// `501 Not Implemented`. It ends without a response if `s` holds a
/// malformed line, and waits for a byte if `s` ends before the request
/// does.
pub proof fn lemma_connection_serves_request(
    dir: Seq<char>,
    s: Seq<u8>,
    files: Map<Seq<char>, Seq<char>>,
)
    ensures
        match parse_request(s) {
            Parsed::Request { request, rest } => run(
                dir,
                NextModel::ReadByte(fresh_reader()),
                s,
                files,
            ) == NextModel::Respond(answer(dir, request, files)),
            Parsed::Malformed { rest } => run(dir, NextModel::ReadByte(fresh_reader()), s, files)
                == NextModel::Malformed,
            Parsed::Incomplete => run(
                dir,
                NextModel::ReadByte(fresh_reader()),
                s,
                files,
            ) is ReadByte,
        },
{
    lemma_run_reads(dir, fresh_reader(), s, files);
    lemma_feeding_is_parsing(ParserModel::ReadInitial, s);
}

/// The first step of a connection: read a byte.
pub fn open() -> (next: Next)
    ensures
        next@ == NextModel::ReadByte(fresh_reader()),
{
    Next::ReadByte(RequestReader::new())
}

/// Decides what follows a request that has been read.
pub fn handle_request(config: &Config, request: HttpRequest) -> (next: Next)
    ensures
        next@ == plan(config.dir@, request@),
{
    match request {
        HttpRequest::Unsupported => {
            let mut headers = HeaderMap::new();
            headers.insert(String::from_str("Server"), String::from_str("rhs/0.1"));
            assert(headers.entries() =~= seq![("Server"@, "rhs/0.1"@)]);
            Next::Respond(
                HttpResponse {
                    status: String::from_str("501 Not Implemented"),
                    headers,
                    body: String::from_str("501 Not Implemented\nrhs/0.1"),
                },
            )
        },
        HttpRequest::Get { path, headers } => {
            let mut file_path = config.dir.clone();
            file_path.append(path.as_str());
            let target = file_target(file_path.as_str(), false);
            Next::ReadFile { target, pending: Pending { path: file_path, trying_index: false, headers } }
        },
    }
}

/// Takes in one byte from the peer.
pub fn on_byte(config: &Config, reader: RequestReader, byte: u8) -> (next: Next)
    ensures
        next@ == after_byte(config.dir@, reader@, byte),
{
    match reader.feed(byte) {
        ReadStep::More(reader) => Next::ReadByte(reader),
        ReadStep::Done(request) => handle_request(config, request),
        ReadStep::Malformed => Next::Malformed,
    }
}

/// Takes in the outcome of reading the file that was asked for: its
/// contents, or `None` if it could not be read.
pub fn on_file(pending: Pending, contents: Option<String>) -> (next: Next)
    ensures
        next@ == after_file(
            pending@,
            match contents {
                Some(text) => Some(text@),
                None => None,
            },
        ),
{
    match read_file(pending.trying_index, contents) {
        FileStep::Answer { status, body } => Next::Respond(
            HttpResponse { status, headers: pending.headers, body },
        ),
        FileStep::TryIndex => {
            let target = file_target(pending.path.as_str(), true);
            Next::ReadFile {
                target,
                pending: Pending { path: pending.path, trying_index: true, headers: pending.headers },
            }
        },
    }
}

} // verus!
