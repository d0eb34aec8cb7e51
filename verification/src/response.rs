//! The response writer: a status, headers and a body, laid out as
//! HTTP/1.1 puts them on the wire.

use crate::headers::{Entries, HeaderMap};
use vstd::prelude::*;
use vstd::string::{StrSliceExecFns, StringExecFns};
use vstd::utf8::encode_utf8;

verus! {

/// A response to be written.
#[derive(Debug)]
pub struct HttpResponse {
    /// The status code and reason, such as `200 OK`.
    pub status: String,
    pub headers: HeaderMap,
    /// The body, written as it is.
    pub body: String,
}

/// What an `HttpResponse` holds.
pub struct ResponseModel {
    pub status: Seq<char>,
    pub headers: Entries,
    pub body: Seq<char>,
}

impl View for HttpResponse {
    type V = ResponseModel;

    open spec fn view(&self) -> ResponseModel {
        ResponseModel { status: self.status@, headers: self.headers.entries(), body: self.body@ }
    }
}

/// One line `name: value` for each header, in the order of the entries,
/// each ended by carriage return and line feed.
pub open spec fn header_lines(headers: Entries) -> Seq<char>
    decreases headers.len(),
{
    if headers.len() == 0 {
        Seq::<char>::empty()
    } else {
        header_lines(headers.drop_last()) + headers.last().0 + ": "@ + headers.last().1 + "\r\n"@
    }
}

/// The text of a response: the status line, the header lines, an empty
/// line, and the body with nothing after it.
pub open spec fn response_text(response: ResponseModel) -> Seq<char> {
    "HTTP/1.1 "@ + response.status + "\r\n"@ + header_lines(response.headers) + "\r\n"@
        + response.body
}

/// The bytes of a response: its text in UTF-8.
pub open spec fn response_bytes(response: ResponseModel) -> Seq<u8> {
    encode_utf8(response_text(response))
}

/// Builds the text of `response`.
pub fn render_response(response: &HttpResponse) -> (text: String)
    ensures
        text@ == response_text(response@),
{
    let mut text = String::from_str("HTTP/1.1 ");
    text.append(response.status.as_str());
    text.append("\r\n");
    let ghost head = text@;
    let ghost entries = response.headers.entries();
    let count = response.headers.len();
    let mut index: usize = 0;
    while index < count
        invariant
            index <= count,
            count == entries.len(),
            entries == response.headers.entries(),
            text@ == head + header_lines(entries.take(index as int)),
        decreases count - index,
    {
        proof {
            let upto = entries.take(index + 1);
            assert(upto.drop_last() =~= entries.take(index as int));
            assert(upto.last() == entries[index as int]);
        }
        text.append(response.headers.key_at(index).as_str());
        text.append(": ");
        text.append(response.headers.value_at(index).as_str());
        text.append("\r\n");
        index = index + 1;
        assert(text@ =~= head + header_lines(entries.take(index as int)));
    }
    assert(entries.take(count as int) =~= entries);
    text.append("\r\n");
    text.append(response.body.as_str());
    text
}

/// Writes `response` to the end of `out`.
pub fn write_response(out: &mut Vec<u8>, response: HttpResponse)
    ensures
        final(out)@ == old(out)@ + response_bytes(response@),
{
    let text = render_response(&response);
    let mut bytes = text.as_str().as_bytes_vec();
    out.append(&mut bytes);
}

} // verus!
