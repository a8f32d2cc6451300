//! Responses: what they hold, how they render, and what they put on the wire.

use vstd::prelude::*;
use vstd::string::*;
use vstd::utf8::*;
use crate::text::{decimal, extension, extension_of, to_decimal};
use crate::utils::{get_mime_type, mime_type};

verus! {

/// The first line of every response: the reason phrase is `OK` whatever the code.
pub open spec fn status_line(status: u16) -> Seq<char> {
    "HTTP/1.1 "@ + decimal(status as nat) + " OK\r\n"@
}

/// The header that announces a body of `length` bytes.
pub open spec fn content_length(length: nat) -> Seq<char> {
    "Content-Length: "@ + decimal(length) + "\r\n"@
}

/// The header that names the content type.
pub open spec fn content_type(mime: Seq<char>) -> Seq<char> {
    "Content-Type: "@ + mime + "\r\n"@
}

/// A response that can be rendered and sent.
pub trait Sendable: Send + Sync {
    /// The text that `render` gives.
    spec fn rendered(&self) -> Seq<char>;

    /// The bytes that follow the rendered text on the wire.
    spec fn payload(&self) -> Seq<u8>;

    /// The status line and the headers, and for a text response its body.
    fn render(&self) -> (r: String)
        ensures
            r@ == self.rendered(),
    ;

    /// Appends the whole response to `conn`: the rendered text, then the payload.
    fn send(&self, conn: &mut Vec<u8>)
        ensures
            final(conn)@ == old(conn)@ + encode_utf8(self.rendered()) + self.payload(),
    ;
}

/// A response behind a box renders and sends as the response itself.
impl<T: Sendable + ?Sized> Sendable for Box<T> {
    open spec fn rendered(&self) -> Seq<char> {
        (**self).rendered()
    }

    open spec fn payload(&self) -> Seq<u8> {
        (**self).payload()
    }

    fn render(&self) -> (r: String) {
        (**self).render()
    }

    fn send(&self, conn: &mut Vec<u8>) {
        (**self).send(conn)
    }
}

/// The bytes of a response as they go over the wire.
pub open spec fn wire<R: Sendable>(response: &R) -> Seq<u8> {
    encode_utf8(response.rendered()) + response.payload()
}

/// A page of text with its status code.
pub struct Page {
    status: u16,
    content: String,
}

/// What a page holds.
pub struct PageView {
    pub status: u16,
    pub content: Seq<char>,
}

impl View for Page {
    type V = PageView;

    closed spec fn view(&self) -> PageView {
        PageView { status: self.status, content: self.content@ }
    }
}

impl Page {
    /// A page with the given status code and body.
    pub fn new(status: u16, content: String) -> (r: Page)
        ensures
            r@ == (PageView { status, content: content@ }),
    {
        Page { status, content }
    }
}

impl PageView {
    /// The response in text: status line, length of the body in bytes, blank line, body.
    pub open spec fn rendered(self) -> Seq<char> {
        status_line(self.status) + content_length(encode_utf8(self.content).len()) + "\r\n"@
            + self.content
    }
}

fn append_bytes(conn: &mut Vec<u8>, bytes: &[u8])
    ensures
        final(conn)@ == old(conn)@ + bytes@,
{
    let mut i: usize = 0;
    while i < bytes.len()
        invariant
            i <= bytes.len(),
            conn@ == old(conn)@ + bytes@.take(i as int),
        decreases bytes.len() - i,
    {
        conn.push(bytes[i]);
        assert(bytes@.take(i + 1) == bytes@.take(i as int).push(bytes@[i as int]));
        i = i + 1;
    }
    assert(bytes@.take(bytes@.len() as int) == bytes@);
}

impl Sendable for Page {
    open spec fn rendered(&self) -> Seq<char> {
        self@.rendered()
    }

    open spec fn payload(&self) -> Seq<u8> {
        Seq::empty()
    }

    fn render(&self) -> (r: String) {
        let mut r = String::from_str("HTTP/1.1 ");
        r.append(to_decimal(self.status as usize).as_str());
        r.append(" OK\r\n");
        r.append("Content-Length: ");
        r.append(to_decimal(self.content.as_str().as_bytes().len()).as_str());
        r.append("\r\n");
        r.append("\r\n");
        r.append(self.content.as_str());
        assert(r@ =~= self@.rendered());
        r
    }

    fn send(&self, conn: &mut Vec<u8>) {
        let text = self.render();
        append_bytes(conn, text.as_str().as_bytes());
        assert(conn@ =~= old(conn)@ + encode_utf8(self.rendered()) + self.payload());
    }
}

/// The bytes of a file with its status code, the place of the file and its extension.
pub struct Bytes {
    status: u16,
    content: Vec<u8>,
    file_location: String,
    file_type: String,
}

/// What a file response holds.
pub struct BytesView {
    pub status: u16,
    pub content: Seq<u8>,
    pub file_location: Seq<char>,
    pub file_type: Seq<char>,
}

impl View for Bytes {
    type V = BytesView;

    closed spec fn view(&self) -> BytesView {
        BytesView {
            status: self.status,
            content: self.content@,
            file_location: self.file_location@,
            file_type: self.file_type@,
        }
    }
}

impl BytesView {
    /// The status line and the headers of a file response, up to the blank line.
    pub open spec fn rendered(self) -> Seq<char> {
        status_line(self.status) + content_type(mime_type(self.file_type)) + content_length(
            self.content.len(),
        ) + "\r\n"@
    }
}

impl Bytes {
    /// A response that serves `content`, the bytes of the file at `file_location`. The
    /// location is the canonical path of the file; its extension decides the content type.
    pub fn new(status: u16, content: Vec<u8>, file_location: String) -> (r: Bytes)
        ensures
            r@ == (BytesView {
                status,
                content: content@,
                file_location: file_location@,
                file_type: extension(file_location@),
            }),
    {
        let file_type = String::from_str(extension_of(file_location.as_str()));
        Bytes { status, content, file_location, file_type }
    }

    /// The canonical path of the file.
    pub fn file_location(&self) -> (r: &String)
        ensures
            r@ == self@.file_location,
    {
        &self.file_location
    }
}

impl Sendable for Bytes {
    open spec fn rendered(&self) -> Seq<char> {
        self@.rendered()
    }

    open spec fn payload(&self) -> Seq<u8> {
        self@.content
    }

    fn render(&self) -> (r: String) {
        let mut r = String::from_str("HTTP/1.1 ");
        r.append(to_decimal(self.status as usize).as_str());
        r.append(" OK\r\n");
        r.append("Content-Type: ");
        r.append(get_mime_type(self.file_type.as_str()));
        r.append("\r\n");
        r.append("Content-Length: ");
        r.append(to_decimal(self.content.len()).as_str());
        r.append("\r\n");
        r.append("\r\n");
        assert(r@ =~= self@.rendered());
        r
    }

    fn send(&self, conn: &mut Vec<u8>) {
        let text = self.render();
        append_bytes(conn, text.as_str().as_bytes());
        append_bytes(conn, self.content.as_slice());
        assert(conn@ =~= old(conn)@ + encode_utf8(self.rendered()) + self.payload());
    }
}

/// What the handlers of this crate answer with: a page or the bytes of a file.
pub enum Response {
    Page(Page),
    Bytes(Bytes),
}

/// What a `Response` holds.
pub enum ResponseView {
    Page(PageView),
    Bytes(BytesView),
}

impl View for Response {
    type V = ResponseView;

    open spec fn view(&self) -> ResponseView {
        match *self {
            Response::Page(page) => ResponseView::Page(page@),
            Response::Bytes(bytes) => ResponseView::Bytes(bytes@),
        }
    }
}

impl ResponseView {
    /// The status code.
    pub open spec fn status(self) -> u16 {
        match self {
            ResponseView::Page(page) => page.status,
            ResponseView::Bytes(bytes) => bytes.status,
        }
    }
}

impl Response {
    /// The status code.
    pub fn status(&self) -> (r: u16)
        ensures
            r == self@.status(),
    {
        match self {
            Response::Page(page) => page.status,
            Response::Bytes(bytes) => bytes.status,
        }
    }
}

impl Sendable for Response {
    open spec fn rendered(&self) -> Seq<char> {
        match *self {
            Response::Page(page) => page.rendered(),
            Response::Bytes(bytes) => bytes.rendered(),
        }
    }

    open spec fn payload(&self) -> Seq<u8> {
        match *self {
            Response::Page(page) => page.payload(),
            Response::Bytes(bytes) => bytes.payload(),
        }
    }

    fn render(&self) -> (r: String) {
        match self {
            Response::Page(page) => page.render(),
            Response::Bytes(bytes) => bytes.render(),
        }
    }

    fn send(&self, conn: &mut Vec<u8>) {
        match self {
            Response::Page(page) => page.send(conn),
            Response::Bytes(bytes) => bytes.send(conn),
        }
    }
}

} // verus!
