//! The head of an HTTP response, as far as it was read.

use crate::text::ascii;
use vstd::prelude::*;

verus! {

/// How far an HTTP head could be read.
#[derive(Clone, Copy, Debug, PartialEq, Eq, Structural)]
pub enum HeadStatus {
    /// The whole head was read; the body starts at this offset.
    Complete(usize),
    /// The bytes end before the head does.
    Partial,
    /// The bytes are no HTTP head, or hold more headers than there is room for.
    Invalid,
}

/// A header as it stands in a response.
#[derive(Debug)]
pub struct HttpHeader {
    pub name: String,
    pub value: Vec<u8>,
}

/// What was read of the head of an HTTP response.
#[derive(Debug)]
pub struct HttpHead {
    pub code: Option<u16>,
    pub headers: Vec<HttpHeader>,
    pub status: HeadStatus,
}

/// The mathematical form of an [`HttpHeader`].
pub struct HeaderView {
    pub name: Seq<char>,
    pub value: Seq<u8>,
}

/// The mathematical form of an [`HttpHead`].
#[verifier::ext_equal]
pub struct HeadView {
    pub code: Option<u16>,
    pub headers: Seq<HeaderView>,
    pub status: HeadStatus,
}

impl View for HttpHeader {
    type V = HeaderView;

    open spec fn view(&self) -> HeaderView {
        HeaderView { name: self.name@, value: self.value@ }
    }
}

impl View for HttpHead {
    type V = HeadView;

    open spec fn view(&self) -> HeadView {
        HeadView {
            code: self.code,
            headers: self.headers@.map_values(|h: HttpHeader| h@),
            status: self.status,
        }
    }
}

/// Whether a byte is the code of a visible ASCII character.
pub open spec fn is_visible(b: u8) -> bool {
    0x21 <= b <= 0x7e
}

/// Whether a header has a name of lower-case letters and hyphens and a value of visible
/// characters, at least one of each.
pub open spec fn plain_header(h: HeaderView) -> bool {
    &&& h.name.len() > 0
    &&& forall|i: int|
        0 <= i < h.name.len() ==> 'a' <= #[trigger] h.name[i] <= 'z' || h.name[i] == '-'
    &&& h.value.len() > 0
    &&& forall|i: int| 0 <= i < h.value.len() ==> is_visible(#[trigger] h.value[i])
}

/// A header on its line.
pub open spec fn header_line(h: HeaderView) -> Seq<u8> {
    ascii(h.name) + ascii(": "@) + h.value + ascii("\r\n"@)
}

/// Headers on their lines.
pub open spec fn header_lines(headers: Seq<HeaderView>) -> Seq<u8>
    decreases headers.len(),
{
    if headers.len() == 0 {
        Seq::empty()
    } else {
        header_lines(headers.drop_last()) + header_line(headers.last())
    }
}

/// The head of a successful response with some headers.
pub open spec fn plain_head(headers: Seq<HeaderView>) -> Seq<u8> {
    ascii("HTTP/1.1 200 OK\r\n"@) + header_lines(headers) + ascii("\r\n"@)
}

/// A successful response with some headers and a body.
pub open spec fn plain_response(headers: Seq<HeaderView>, body: Seq<u8>) -> Seq<u8> {
    plain_head(headers) + body
}

/// What there is to read of the head of a successful response with some headers.
pub open spec fn plain_head_view(headers: Seq<HeaderView>) -> HeadView {
    HeadView {
        code: Some(200),
        headers,
        status: HeadStatus::Complete(plain_head(headers).len() as usize),
    }
}

} // verus!
