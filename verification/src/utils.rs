//! What the server does with one connection, and the handlers that serve files.

use vstd::prelude::*;
use vstd::string::*;
use vstd::utf8::*;
use crate::errors::ConnectionError;
use crate::sanitize::{sanitize, sanitized};
use crate::server::{
    bindings, find_handler, is_bound, lemma_unbound_path_falls_back, resolves_to, table_wf, wire,
    Bytes, BytesView, ConnectionType, Handler, Page, PageView, RequestInfo, Response,
    ResponseView, Sendable,
};
use crate::text::{nth_token, str_eq, token};

verus! {

/// The content type that goes with a file extension.
pub open spec fn mime_type(extension: Seq<char>) -> Seq<char> {
    if extension == "html"@ {
        "text/html"@
    } else if extension == "css"@ {
        "text/css"@
    } else if extension == "js"@ {
        "application/javascript"@
    } else if extension == "json"@ {
        "application/json"@
    } else if extension == "png"@ {
        "image/png"@
    } else if extension == "jpg"@ || extension == "jpeg"@ {
        "image/jpeg"@
    } else if extension == "gif"@ {
        "image/gif"@
    } else if extension == "svg"@ {
        "image/svg+xml"@
    } else {
        "application/octet-stream"@
    }
}

/// Looks up the content type of a file extension. An extension that is not known is
/// served as a stream of bytes.
pub fn get_mime_type(extension: &str) -> (r: &'static str)
    ensures
        r@ == mime_type(extension@),
{
    if str_eq(extension, "html") {
        "text/html"
    } else if str_eq(extension, "css") {
        "text/css"
    } else if str_eq(extension, "js") {
        "application/javascript"
    } else if str_eq(extension, "json") {
        "application/json"
    } else if str_eq(extension, "png") {
        "image/png"
    } else if str_eq(extension, "jpg") || str_eq(extension, "jpeg") {
        "image/jpeg"
    } else if str_eq(extension, "gif") {
        "image/gif"
    } else if str_eq(extension, "svg") {
        "image/svg+xml"
    } else {
        "application/octet-stream"
    }
}

/// The path that a request asks for: the second token of its first line, sanitized. It
/// fails where the stream gave no line, where the line has no second token, and where the
/// token decodes to bytes that are no UTF-8.
pub open spec fn requested_route(request_line: Option<Seq<char>>) -> Result<
    Seq<char>,
    ConnectionError,
> {
    match request_line {
        None => Err(ConnectionError::MissingRequestLine),
        Some(line) => match token(line, 1) {
            None => Err(ConnectionError::MissingPath),
            Some(raw) => match sanitized(raw) {
                None => Err(ConnectionError::InvalidEncoding),
                Some(path) => Ok(path),
            },
        },
    }
}

/// The text of a line that may be absent.
pub open spec fn line_view(request_line: Option<&str>) -> Option<Seq<char>> {
    match request_line {
        Some(line) => Some(line@),
        None => None,
    }
}

/// Reads the path that a request asks for off its first line; `None` stands for a stream
/// that ended before a line.
pub fn request_route(request_line: Option<&str>) -> (r: Result<String, ConnectionError>)
    ensures
        match r {
            Ok(path) => requested_route(line_view(request_line)) == Ok::<
                Seq<char>,
                ConnectionError,
            >(path@),
            Err(e) => requested_route(line_view(request_line)) == Err::<
                Seq<char>,
                ConnectionError,
            >(e),
        },
{
    match request_line {
        None => Err(ConnectionError::MissingRequestLine),
        Some(line) => match nth_token(line, 1) {
            None => Err(ConnectionError::MissingPath),
            Some(raw) => sanitize(raw),
        },
    }
}

/// The page that answers a request where the route table holds no handler at all for it.
pub open spec fn default_page() -> PageView {
    PageView { status: 404, content: "Not found"@ }
}

/// Whether `bytes` is what `handler` answers to a request for `path` that came over a
/// connection of the given kind, as it goes over the wire.
pub open spec fn answers<R: Sendable, H: Fn(&RequestInfo) -> R>(
    handler: H,
    connection_type: ConnectionType,
    path: Seq<char>,
    blacklisted_paths: &Vec<String>,
    bytes: Seq<u8>,
) -> bool {
    exists|request: &RequestInfo, response: R|
        {
            &&& request.connection_type == connection_type
            &&& request.route@ == path
            &&& request.blacklisted_paths == blacklisted_paths
            &&& #[trigger] call_ensures(handler, (request,), response)
            &&& bytes == wire(&response)
        }
}

/// Whether `handler` can be called with every request for `path` that came over a
/// connection of the given kind.
pub open spec fn accepts<R: Sendable, H: Fn(&RequestInfo) -> R>(
    handler: H,
    connection_type: ConnectionType,
    path: Seq<char>,
    blacklisted_paths: &Vec<String>,
) -> bool {
    forall|request: &RequestInfo|
        request.connection_type == connection_type && request.route@ == path
            && request.blacklisted_paths == blacklisted_paths ==> #[trigger] call_requires(
            handler,
            (request,),
        )
}

/// Whether `bytes` is what the route table `routes` answers to a request for `path` that
/// came over a connection of the given kind: the answer of the handler that the lookup
/// ends at, or the default page where it ends nowhere.
pub open spec fn served<R: Sendable, H: Fn(&RequestInfo) -> R>(
    routes: Seq<Handler<H>>,
    connection_type: ConnectionType,
    path: Seq<char>,
    blacklisted_paths: &Vec<String>,
    bytes: Seq<u8>,
) -> bool {
    exists|found: Option<usize>|
        {
            &&& #[trigger] resolves_to(bindings(routes), path, found)
            &&& match found {
                Some(i) => answers(
                    routes[i as int]@.handler,
                    connection_type,
                    path,
                    blacklisted_paths,
                    bytes,
                ),
                None => bytes == encode_utf8(default_page().rendered()),
            }
        }
}

/// Calls `handler` with the request for `route` that came over a connection of the given
/// kind, and appends its answer to `out`.
pub fn respond<R: Sendable, H: Fn(&RequestInfo) -> R>(
    handler: &H,
    connection_type: ConnectionType,
    route: &str,
    blacklisted_paths: &Vec<String>,
    out: &mut Vec<u8>,
)
    requires
        accepts(*handler, connection_type, route@, blacklisted_paths),
    ensures
        old(out)@.is_prefix_of(final(out)@),
        answers(
            *handler,
            connection_type,
            route@,
            blacklisted_paths,
            final(out)@.skip(old(out)@.len() as int),
        ),
{
    let request = RequestInfo { connection_type, route, blacklisted_paths };
    let response = handler(&request);
    response.send(out);
    proof {
        assert(call_ensures(*handler, (&request,), response));
        assert(out@.skip(old(out)@.len() as int) =~= wire(&response));
    }
}

/// Serves one connection, from its first line to the bytes of the answer. The path is
/// read off the line and looked up in `routes`; the handler that the lookup ends at is
/// called and its answer is appended to `out`. No other handler is called: only the one
/// that the lookup ends at has to accept the request. Where the lookup ends nowhere the
/// answer is the default page. Where the line gives no path nothing is appended.
pub fn handle_connection<R: Sendable, H: Fn(&RequestInfo) -> R>(
    connection_type: ConnectionType,
    request_line: Option<&str>,
    routes: &Vec<Handler<H>>,
    blacklisted_paths: &Vec<String>,
    out: &mut Vec<u8>,
) -> (r: Result<(), ConnectionError>)
    requires
        forall|i: int, path: Seq<char>|
            0 <= i < routes.len() && resolves_to(bindings(routes@), path, Some(i as usize))
                ==> #[trigger] accepts(routes[i]@.handler, connection_type, path, blacklisted_paths),
    ensures
        match r {
            Err(e) => {
                &&& requested_route(line_view(request_line)) == Err::<Seq<char>, ConnectionError>(e)
                &&& final(out)@ == old(out)@
            },
            Ok(()) => {
                &&& requested_route(line_view(request_line)) matches Ok(path)
                &&& old(out)@.is_prefix_of(final(out)@)
                &&& served(
                    routes@,
                    connection_type,
                    path,
                    blacklisted_paths,
                    final(out)@.skip(old(out)@.len() as int),
                )
            },
        },
{
    let route = request_route(request_line)?;
    let found = find_handler(routes, route.as_str());
    match found {
        Some(i) => {
            respond(routes[i].handler(), connection_type, route.as_str(), blacklisted_paths, out);
        },
        None => {
            let page = Page::new(404, String::from_str("Not found"));
            page.send(out);
            assert(out@.skip(old(out)@.len() as int) =~= encode_utf8(default_page().rendered()));
        },
    }
    Ok(())
}

/// In a well-formed table, a request for a path that no binding has is answered by the
/// handler that is bound to the reserved route at that time.
pub proof fn lemma_unbound_path_served_by_fallback<R: Sendable, H: Fn(&RequestInfo) -> R>(
    routes: Seq<Handler<H>>,
    connection_type: ConnectionType,
    path: Seq<char>,
    blacklisted_paths: &Vec<String>,
    bytes: Seq<u8>,
)
    requires
        table_wf(bindings(routes)),
        !is_bound(bindings(routes), path),
        served(routes, connection_type, path, blacklisted_paths, bytes),
    ensures
        answers(routes[0]@.handler, connection_type, path, blacklisted_paths, bytes),
{
    let found = choose|found: Option<usize>|
        {
            &&& #[trigger] resolves_to(bindings(routes), path, found)
            &&& match found {
                Some(i) => answers(
                    routes[i as int]@.handler,
                    connection_type,
                    path,
                    blacklisted_paths,
                    bytes,
                ),
                None => bytes == encode_utf8(default_page().rendered()),
            }
        };
    lemma_unbound_path_falls_back(bindings(routes), path, found);
}

/// A file on the blacklist is answered with the status 403, whatever else was asked.
pub proof fn lemma_blacklisted_file_is_forbidden(
    file: BytesView,
    blacklist: Seq<Seq<char>>,
    not_found: PageView,
)
    requires
        blacklist.contains(file.file_location),
    ensures
        file_answer(Some(file), blacklist, not_found).status() == 403,
{
}

/// The page that answers a request for a file that must not be served.
pub open spec fn forbidden_page() -> PageView {
    PageView { status: 403, content: "Forbidden"@ }
}

/// What a file that was looked for is answered with: `not_found` where there is none, the
/// forbidden page where its canonical path is on the blacklist, and else its bytes.
pub open spec fn file_answer(
    file: Option<BytesView>,
    blacklist: Seq<Seq<char>>,
    not_found: PageView,
) -> ResponseView {
    match file {
        None => ResponseView::Page(not_found),
        Some(bytes) => if blacklist.contains(bytes.file_location) {
            ResponseView::Page(forbidden_page())
        } else {
            ResponseView::Bytes(bytes)
        },
    }
}

/// What a file that may be absent holds.
pub open spec fn file_view(file: Option<Bytes>) -> Option<BytesView> {
    match file {
        Some(bytes) => Some(bytes@),
        None => None,
    }
}

/// Tells whether `path` is one of `paths`.
pub fn contains_path(paths: &Vec<String>, path: &str) -> (r: bool)
    ensures
        r == paths.deep_view().contains(path@),
{
    let mut i: usize = 0;
    while i < paths.len()
        invariant
            i <= paths.len(),
            forall|j: int| 0 <= j < i ==> paths.deep_view()[j] != path@,
        decreases paths.len() - i,
    {
        assert(paths.deep_view()[i as int] == paths@[i as int]@);
        if str_eq(paths[i].as_str(), path) {
            return true;
        }
        i = i + 1;
    }
    false
}

/// Answers a request for a file with what the lookup of the file gave: `file` holds its
/// bytes and its canonical path, or nothing where there is no such file.
pub fn file_response(file: Option<Bytes>, blacklisted_paths: &Vec<String>, not_found: Page) -> (r:
    Response)
    ensures
        r@ == file_answer(file_view(file), blacklisted_paths.deep_view(), not_found@),
{
    match file {
        None => Response::Page(not_found),
        Some(bytes) => {
            if contains_path(blacklisted_paths, bytes.file_location().as_str()) {
                Response::Page(Page::new(403, String::from_str("Forbidden")))
            } else {
                Response::Bytes(bytes)
            }
        },
    }
}

/// The file that a route names: the route without its first character, the slash. An
/// empty route names none. The kind of the connection plays no part.
pub open spec fn route_file(route: Seq<char>) -> Option<Seq<char>> {
    if route.len() > 0 {
        Some(route.skip(1))
    } else {
        None
    }
}

/// The path of the file that the request asks for.
pub fn requested_file<'a>(request: &RequestInfo<'a>) -> (r: Option<&'a str>)
    ensures
        line_view(r) == route_file(request.route@),
{
    let n: usize = request.route.unicode_len();
    if n > 0 {
        Some(request.route.substring_char(1, n))
    } else {
        None
    }
}

/// The handler of the routes that serve files. `file` is what the lookup of
/// `requested_file` gave. A file that is not there is answered with the default page, a
/// file on the blacklist with the forbidden page.
pub fn base_file_handler(request: &RequestInfo, file: Option<Bytes>) -> (r: Response)
    ensures
        r@ == file_answer(file_view(file), request.blacklisted_paths.deep_view(), default_page()),
{
    let not_found = Page::new(404, String::from_str("Not found"));
    file_response(file, request.blacklisted_paths, not_found)
}

/// The handler of the routes that nothing is bound to. `file` is what the lookup of
/// `requested_file` gave, `content` the text to answer with where there is no such file.
/// A file on the blacklist is answered with the forbidden page.
pub fn base_not_found_handler(request: &RequestInfo, file: Option<Bytes>, content: String) -> (r:
    Response)
    ensures
        r@ == file_answer(
            file_view(file),
            request.blacklisted_paths.deep_view(),
            PageView { status: 404, content: content@ },
        ),
{
    let not_found = Page::new(404, content);
    file_response(file, request.blacklisted_paths, not_found)
}

} // verus!
