//! The path resolver: which file answers a request path, and what is sent
//! when none does.
//!
//! The file at the path itself is tried first. If it cannot be read, the
//! file `index.html` under the path is tried, once. If that cannot be read
//! either, the answer is `404 Not Found`. Every failure to read counts as
//! not found. Reading is the caller's part: the functions here say which
//! file to read and what follows from the outcome.

use vstd::prelude::*;
use vstd::string::StringExecFns;

verus! {

/// The path tried when `path` itself cannot be read.
pub open spec fn index_of(path: Seq<char>) -> Seq<char> {
    path + "/index.html"@
}

/// The file read in an attempt: the path itself, or its index file if the
/// attempt is the fallback.
pub open spec fn target_of(path: Seq<char>, trying_index: bool) -> Seq<char> {
    if trying_index {
        index_of(path)
    } else {
        path
    }
}

/// What follows from one attempt to read.
pub enum FileStepModel {
    /// The answer to send.
    Answer { status: Seq<char>, body: Seq<char> },
    /// Try the index file.
    TryIndex,
}

/// What follows from an attempt whose outcome is `contents`: contents are
/// sent with `200 OK`; a failure leads to the index file, and a failure of
/// the index file to `404 Not Found`.
pub open spec fn file_step(trying_index: bool, contents: Option<Seq<char>>) -> FileStepModel {
    match contents {
        Some(text) => FileStepModel::Answer { status: "200 OK"@, body: text },
        None => if trying_index {
            FileStepModel::Answer { status: "404 Not Found"@, body: "404 Not Found\nrhs/0.1"@ }
        } else {
            FileStepModel::TryIndex
        },
    }
}

/// What reading `path` gives when the readable files are `files`.
pub open spec fn read_in(files: Map<Seq<char>, Seq<char>>, path: Seq<char>) -> Option<Seq<char>> {
    if files.contains_key(path) {
        Some(files[path])
    } else {
        None
    }
}

/// The status and body that `path` resolves to when the readable files are
/// `files`.
pub open spec fn resolve(files: Map<Seq<char>, Seq<char>>, path: Seq<char>) -> (
    Seq<char>,
    Seq<char>,
) {
    if files.contains_key(path) {
        ("200 OK"@, files[path])
    } else if files.contains_key(index_of(path)) {
        ("200 OK"@, files[index_of(path)])
    } else {
        ("404 Not Found"@, "404 Not Found\nrhs/0.1"@)
    }
}

/// Two attempts always suffice, and they give what `resolve` says: the
/// first attempt either answers or asks for the index file, and the attempt
/// on the index file always answers.
pub proof fn lemma_attempts_resolve(files: Map<Seq<char>, Seq<char>>, path: Seq<char>)
    ensures
        match file_step(false, read_in(files, target_of(path, false))) {
            FileStepModel::Answer { status, body } => (status, body) == resolve(files, path),
            FileStepModel::TryIndex => file_step(true, read_in(files, target_of(path, true)))
                == (FileStepModel::Answer {
                status: resolve(files, path).0,
                body: resolve(files, path).1,
            }),
        },
{
}

/// What follows from one attempt to read.
#[derive(Debug)]
pub enum FileStep {
    /// The answer to send.
    Answer { status: String, body: String },
    /// Try the index file.
    TryIndex,
}

impl View for FileStep {
    type V = FileStepModel;

    open spec fn view(&self) -> FileStepModel {
        match self {
            FileStep::Answer { status, body } => FileStepModel::Answer {
                status: status@,
                body: body@,
            },
            FileStep::TryIndex => FileStepModel::TryIndex,
        }
    }
}

/// The file to read in an attempt on `path`.
pub fn file_target(path: &str, trying_index: bool) -> (target: String)
    ensures
        target@ == target_of(path@, trying_index),
{
    let mut target = String::from_str(path);
    if trying_index {
        target.append("/index.html");
    }
    target
}

/// Decides what follows from an attempt to read a file: `contents` is what
/// was read, or `None` if the file could not be read.
pub fn read_file(trying_index: bool, contents: Option<String>) -> (step: FileStep)
    ensures
        step@ == file_step(
            trying_index,
            match contents {
                Some(text) => Some(text@),
                None => None,
            },
        ),
{
    match contents {
        Some(text) => FileStep::Answer { status: String::from_str("200 OK"), body: text },
        None => if trying_index {
            FileStep::Answer {
                status: String::from_str("404 Not Found"),
                body: String::from_str("404 Not Found\nrhs/0.1"),
            }
        } else {
            FileStep::TryIndex
        },
    }
}

} // verus!
