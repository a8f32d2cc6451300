use simpleserve::errors::{FileRouteError, RouteError, StartError};
use simpleserve::server::{
    clone_paths, clone_routes, find_handler, ConnectionType, Handler, Page, RequestInfo, Response,
    Sendable, ServerAction, ServerEvent, Task, Webserver,
};
use simpleserve::utils::{
    base_file_handler, base_not_found_handler, file_response, handle_connection, requested_file,
    respond,
};
use simpleserve::Bytes;
use std::sync::atomic::{AtomicUsize, Ordering};

static FALLBACK: AtomicUsize = AtomicUsize::new(0);
static MATCHED: AtomicUsize = AtomicUsize::new(0);

type PageHandler = fn(&RequestInfo) -> Page;

fn hello(_: &RequestInfo) -> Page {
    Page::new(200, String::from("Hello World!"))
}

fn missing(_: &RequestInfo) -> Page {
    Page::new(404, String::from("nothing here"))
}

fn gone(_: &RequestInfo) -> Page {
    Page::new(410, String::from("gone for good"))
}

fn echo(request: &RequestInfo) -> Page {
    Page::new(200, String::from(request.route))
}

fn request_for<'a>(kind: ConnectionType, route: &'a str, blacklist: &'a Vec<String>) -> RequestInfo<'a> {
    RequestInfo { connection_type: kind, route, blacklisted_paths: blacklist }
}

fn page_bytes(status: u16, body: &str) -> Vec<u8> {
    format!("HTTP/1.1 {} OK\r\nContent-Length: {}\r\n\r\n{}", status, body.len(), body).into_bytes()
}

#[test]
fn test_server_routes() {
    let cargo_lock = String::from("/srv/simpleserve/Cargo.lock");
    let handlers: PageHandler = |_| -> Page { Page::new(200, String::from("Hello World!")) };
    let mut server = Webserver::new(10, vec![cargo_lock.clone()], missing as PageHandler);
    server.add_route("/", handlers.clone());
    server.add_route("/sleep", handlers.clone());
    server.add_route("/image.jpg", handlers.clone());
    let paths = vec!["src/lib.rs", "src/server.rs"];
    let resolved = vec![true, true];
    server.add_accessible_files(paths, &resolved, handlers.clone()).unwrap();
    assert_eq!(server.blacklisted_paths()[0], cargo_lock);
    let routes: Vec<&str> = server.routes().iter().map(|h| h.route()).collect();
    assert_eq!(routes, vec!["404", "/", "/sleep", "/image.jpg", "/src/lib.rs", "/src/server.rs"]);
    assert_eq!(server.thread_amount(), 10);
    assert_eq!(*server.connection_type(), None);
}

#[test]
fn route_cannot_be_bound_twice() {
    let mut server = Webserver::new(2, vec![], missing as PageHandler);
    assert_eq!(server.check_route("/"), Ok(()));
    server.add_route("/", hello as PageHandler);
    assert_eq!(server.check_route("/"), Err(RouteError::Duplicate));
    assert_eq!(server.check_route("/other"), Ok(()));
    assert_eq!(server.routes().len(), 2);
}

#[test]
fn empty_route_and_reserved_route_are_refused() {
    let server = Webserver::new(2, vec![], missing as PageHandler);
    assert_eq!(server.check_route(""), Err(RouteError::Empty));
    assert_eq!(server.check_route("404"), Err(RouteError::Duplicate));
    assert_eq!(RouteError::Empty.message(), "Route cannot be empty");
    assert_eq!(RouteError::Duplicate.message(), "Route already exists");
}

#[test]
fn files_are_registered_up_to_the_first_that_is_missing() {
    let mut server = Webserver::new(2, vec![], missing as PageHandler);
    let r = server.add_accessible_files(
        vec!["a.html", "b.html", "c.html"],
        &vec![true, false, true],
        hello as PageHandler,
    );
    assert_eq!(r, Err(FileRouteError::Unresolved(1)));
    let routes: Vec<&str> = server.routes().iter().map(|h| h.route()).collect();
    assert_eq!(routes, vec!["404", "/a.html"]);
}

#[test]
fn files_are_registered_up_to_the_first_that_is_bound() {
    let mut server = Webserver::new(2, vec![], missing as PageHandler);
    server.add_route("/b.html", hello as PageHandler);
    let r = server.add_accessible_files(
        vec!["a.html", "b.html", "c.html"],
        &vec![true, true, true],
        hello as PageHandler,
    );
    assert_eq!(r, Err(FileRouteError::Duplicate(1)));
    let routes: Vec<&str> = server.routes().iter().map(|h| h.route()).collect();
    assert_eq!(routes, vec!["404", "/b.html", "/a.html"]);
    let r = server.add_accessible_files(vec!["x", "x"], &vec![true, true], hello as PageHandler);
    assert_eq!(r, Err(FileRouteError::Duplicate(1)));
    let r = server.add_accessible_files(vec![], &vec![], hello as PageHandler);
    assert_eq!(r, Ok(()));
}

#[test]
fn lookup_takes_the_first_match_and_falls_back_to_the_reserved_route() {
    let routes: Vec<Handler<PageHandler>> = vec![
        Handler::new("404", missing),
        Handler::new("/", hello),
        Handler::new("/x", echo),
    ];
    assert_eq!(find_handler(&routes, "/"), Some(1));
    assert_eq!(find_handler(&routes, "/x"), Some(2));
    assert_eq!(find_handler(&routes, "/missing-route"), Some(0));
    assert_eq!(find_handler(&routes, "404"), Some(0));
    assert_eq!(find_handler(&routes, ""), Some(0));
    let doubled: Vec<Handler<PageHandler>> = vec![
        Handler::new("/x", hello),
        Handler::new("404", missing),
        Handler::new("/x", echo),
        Handler::new("404", gone),
    ];
    assert_eq!(find_handler(&doubled, "/x"), Some(0));
    assert_eq!(find_handler(&doubled, "/y"), Some(3));
    let bare: Vec<Handler<PageHandler>> = vec![Handler::new("/x", hello)];
    assert_eq!(find_handler(&bare, "/y"), None);
    assert_eq!(find_handler(&Vec::<Handler<PageHandler>>::new(), "/y"), None);
}

#[test]
fn unknown_route_gets_the_answer_of_the_not_found_handler() {
    let mut server = Webserver::new(2, vec![], missing as PageHandler);
    server.add_route("/", hello as PageHandler);
    let mut out = Vec::new();
    let r = handle_connection(
        ConnectionType::Http,
        Some("GET /missing-route HTTP/1.1"),
        server.routes(),
        server.blacklisted_paths(),
        &mut out,
    );
    assert_eq!(r, Ok(()));
    assert_eq!(out, page_bytes(404, "nothing here"));
    let mut direct = Vec::new();
    respond(&(missing as PageHandler), ConnectionType::Http, "/missing-route", server.blacklisted_paths(), &mut direct);
    assert_eq!(out, direct);
}

#[test]
fn replaced_not_found_handler_answers_unknown_routes() {
    let mut server = Webserver::new(2, vec![], missing as PageHandler);
    server.add_route("/", hello as PageHandler);
    server.set_404_callback(gone as PageHandler);
    assert_eq!(server.routes()[0].route(), "404");
    assert_eq!(server.routes().len(), 2);
    let mut out = Vec::new();
    let r = handle_connection(
        ConnectionType::Http,
        Some("GET /missing-route HTTP/1.1"),
        server.routes(),
        server.blacklisted_paths(),
        &mut out,
    );
    assert_eq!(r, Ok(()));
    assert_eq!(out, page_bytes(410, "gone for good"));
    let mut known = Vec::new();
    let r = handle_connection(
        ConnectionType::Http,
        Some("GET / HTTP/1.1"),
        server.routes(),
        server.blacklisted_paths(),
        &mut known,
    );
    assert_eq!(r, Ok(()));
    assert_eq!(known, page_bytes(200, "Hello World!"));
}

#[test]
fn handler_sees_the_sanitized_route() {
    let routes: Vec<Handler<PageHandler>> = vec![Handler::new("404", echo)];
    let mut out = b"kept".to_vec();
    let r = handle_connection(ConnectionType::Http, Some("GET /a/../b%20c?q=1 HTTP/1.1"), &routes, &vec![], &mut out);
    assert_eq!(r, Ok(()));
    let mut expected = b"kept".to_vec();
    expected.extend(page_bytes(200, "/a/b c"));
    assert_eq!(out, expected);
}

#[test]
fn connection_without_a_route_is_given_up() {
    let routes: Vec<Handler<PageHandler>> = vec![Handler::new("404", missing)];
    let mut out = Vec::new();
    let none = handle_connection(ConnectionType::Http, None, &routes, &vec![], &mut out);
    assert_eq!(none.map_err(|e| e.message()), Err(String::from("No request line found")));
    let short = handle_connection(ConnectionType::Http, Some("GET"), &routes, &vec![], &mut out);
    assert_eq!(short.map_err(|e| e.message()), Err(String::from("No route found")));
    let bad = handle_connection(ConnectionType::Http, Some("GET /%ff"), &routes, &vec![], &mut out);
    assert_eq!(bad.map_err(|e| e.message()), Err(String::from("The route is not valid UTF-8")));
    assert!(out.is_empty());
}

#[test]
fn table_without_a_reserved_route_answers_with_the_default_page() {
    let routes: Vec<Handler<PageHandler>> = vec![Handler::new("/", hello)];
    let mut out = Vec::new();
    let r = handle_connection(ConnectionType::Http, Some("GET /else HTTP/1.1"), &routes, &vec![], &mut out);
    assert_eq!(r, Ok(()));
    assert_eq!(out, page_bytes(404, "Not found"));
}

#[test]
fn blacklisted_file_is_forbidden() {
    let secret = String::from("/srv/www/secret.txt");
    let blacklist = vec![secret.clone()];
    let request = request_for(ConnectionType::Http, "/secret.txt", &blacklist);
    assert_eq!(requested_file(&request), Some("secret.txt"));
    let file = Bytes::new(200, b"classified".to_vec(), secret.clone());
    let response = base_file_handler(&request, Some(file));
    assert_eq!(response.status(), 403);
    assert_eq!(response.render(), "HTTP/1.1 403 OK\r\nContent-Length: 9\r\n\r\nForbidden");
    // Another route that ends at the same file fares the same.
    let other = request_for(ConnectionType::Http, "/public/../secret.txt", &blacklist);
    let file = Bytes::new(200, b"classified".to_vec(), secret.clone());
    assert_eq!(base_not_found_handler(&other, Some(file), String::from("no")).status(), 403);
}

#[test]
fn file_off_the_blacklist_is_served() {
    let blacklist = vec![String::from("/srv/www/secret.txt")];
    let request = request_for(ConnectionType::Http, "/index.html", &blacklist);
    let file = Bytes::new(200, b"<p>hi</p>".to_vec(), String::from("/srv/www/index.html"));
    let response = base_file_handler(&request, Some(file));
    assert_eq!(response.status(), 200);
    let mut out = Vec::new();
    response.send(&mut out);
    assert_eq!(
        out,
        b"HTTP/1.1 200 OK\r\nContent-Type: text/html\r\nContent-Length: 9\r\n\r\n<p>hi</p>".to_vec()
    );
}

#[test]
fn missing_file_is_not_found() {
    let blacklist = vec![];
    let request = request_for(ConnectionType::Http, "/nowhere", &blacklist);
    let response = base_file_handler(&request, None);
    assert_eq!(response.status(), 404);
    assert_eq!(response.render(), "HTTP/1.1 404 OK\r\nContent-Length: 9\r\n\r\nNot found");
    let response = base_not_found_handler(&request, None, String::from("<h1>404</h1>"));
    assert_eq!(response.render(), "HTTP/1.1 404 OK\r\nContent-Length: 12\r\n\r\n<h1>404</h1>");
    let page = Page::new(404, String::from("x"));
    assert!(matches!(file_response(None, &blacklist, page), Response::Page(_)));
}

#[test]
fn file_of_a_route_is_the_same_over_either_kind_of_connection() {
    let blacklist = vec![String::from("/srv/www/src/lib.rs")];
    let plain = request_for(ConnectionType::Http, "/src/lib.rs", &blacklist);
    let encrypted = request_for(ConnectionType::Https, "/src/lib.rs", &blacklist);
    assert_eq!(requested_file(&plain), Some("src/lib.rs"));
    assert_eq!(requested_file(&encrypted), Some("src/lib.rs"));
    let file = || Some(Bytes::new(200, vec![1, 2], String::from("/srv/www/src/lib.rs")));
    assert_eq!(base_file_handler(&plain, file()).status(), 403);
    assert_eq!(base_file_handler(&encrypted, file()).status(), 403);
    assert_eq!(
        base_file_handler(&plain, None).render(),
        base_file_handler(&encrypted, None).render()
    );
    let request = request_for(ConnectionType::Http, "", &blacklist);
    assert_eq!(requested_file(&request), None);
    let request = request_for(ConnectionType::Https, "", &blacklist);
    assert_eq!(requested_file(&request), None);
    let request = request_for(ConnectionType::Http, "\u{4f60}x", &blacklist);
    assert_eq!(requested_file(&request), Some("x"));
    let request = request_for(ConnectionType::Https, "/", &blacklist);
    assert_eq!(requested_file(&request), Some(""));
}

#[test]
fn server_keeps_to_one_kind_of_transport() {
    let mut server = Webserver::new(2, vec![], missing as PageHandler);
    assert_eq!(server.start(ConnectionType::Http, None, None).map(|f| f.is_none()), Ok(true));
    assert_eq!(*server.connection_type(), Some(ConnectionType::Http));
    assert_eq!(server.start(ConnectionType::Http, None, None).map(|f| f.is_none()), Ok(true));
    let key = Some(String::from("key.pem"));
    let chain = Some(String::from("chain.pem"));
    let refused = server.start(ConnectionType::Https, key, chain);
    assert_eq!(refused.map(|_| ()), Err(StartError::TransportMismatch));
    assert_eq!(*server.connection_type(), Some(ConnectionType::Http));
    assert_eq!(
        StartError::TransportMismatch.message(),
        "The server already uses another kind of connection"
    );
}

#[test]
fn encrypted_server_is_told_its_files() {
    let mut server = Webserver::new(2, vec![], missing as PageHandler);
    let key = Some(String::from("key.pem"));
    let chain = Some(String::from("chain.pem"));
    let files = server.start(ConnectionType::Https, key, chain).map_err(|e| e.message()).unwrap().unwrap();
    assert_eq!(files.private_key_file, "key.pem");
    assert_eq!(files.certificate_chain_file, "chain.pem");
    assert_eq!(*server.connection_type(), Some(ConnectionType::Https));
}

#[test]
fn accepted_connection_becomes_work_with_a_snapshot() {
    let mut server = Webserver::new(2, vec![String::from("/etc/passwd")], missing as PageHandler);
    server.add_route("/", hello as PageHandler);
    assert!(server.start(ConnectionType::Http, None, None).is_ok());
    match server.step(ServerEvent::Accepted(ConnectionType::Http)) {
        ServerAction::Submit(work) => {
            let routes: Vec<&str> = work.routes.iter().map(|h| h.route()).collect();
            assert_eq!(routes, vec!["404", "/"]);
            assert_eq!(work.blacklisted_paths, vec![String::from("/etc/passwd")]);
            let mut out = Vec::new();
            let r = handle_connection(
                ConnectionType::Http,
                Some("GET / HTTP/1.1"),
                &work.routes,
                &work.blacklisted_paths,
                &mut out,
            );
            assert_eq!(r, Ok(()));
            assert_eq!(out, page_bytes(200, "Hello World!"));
        }
        _ => panic!("the connection was not handed on"),
    }
    // The snapshot does not follow later registrations.
    server.add_route("/later", hello as PageHandler);
    assert_eq!(server.routes().len(), 3);
}

#[test]
fn connection_of_the_other_kind_is_dropped() {
    let mut server = Webserver::new(2, vec![], missing as PageHandler);
    let before = server.step(ServerEvent::Accepted(ConnectionType::Http));
    assert!(matches!(before, ServerAction::Continue));
    assert!(server.start(ConnectionType::Http, None, None).is_ok());
    let other = server.step(ServerEvent::Accepted(ConnectionType::Https));
    assert!(matches!(other, ServerAction::Continue));
}

#[test]
fn shutdown_ends_the_loop_and_nothing_else_does() {
    let mut server = Webserver::new(2, vec![], missing as PageHandler);
    assert!(server.start(ConnectionType::Http, None, None).is_ok());
    assert!(matches!(server.step(ServerEvent::Message(Some(Task::Shutdown))), ServerAction::Shutdown));
    assert!(matches!(server.step(ServerEvent::Message(None)), ServerAction::Continue));
    assert!(matches!(server.step(ServerEvent::AcceptFailed), ServerAction::Continue));
}

#[test]
fn channel_is_kept_while_it_delivers() {
    let (sender, receiver) = tokio::sync::mpsc::channel::<Task>(4);
    let mut server = Webserver::new(2, vec![], missing as PageHandler).with_receiver(receiver);
    sender.try_send(Task::Shutdown).unwrap();
    let mut receiver = server.take_receiver().unwrap();
    assert!(server.take_receiver().is_none());
    let message = receiver.try_recv().ok();
    assert!(matches!(server.receive(receiver, message), Some(Task::Shutdown)));
    let mut receiver = server.take_receiver().unwrap();
    drop(sender);
    let message = receiver.try_recv().ok();
    assert!(server.receive(receiver, message).is_none());
    assert!(server.take_receiver().is_none());
}

#[test]
fn snapshots_copy_routes_and_paths() {
    let routes: Vec<Handler<PageHandler>> = vec![Handler::new("404", missing), Handler::new("/", hello)];
    let copy = clone_routes(&routes);
    let names: Vec<&str> = copy.iter().map(|h| h.route()).collect();
    assert_eq!(names, vec!["404", "/"]);
    let paths = vec![String::from("/a"), String::from("/b")];
    assert_eq!(clone_paths(&paths), paths);
    assert_eq!(copy[1].clone().route(), "/");
}

#[test]
fn boxed_responses_are_served_as_what_they_hold() {
    type BoxedHandler = fn(&RequestInfo) -> Box<dyn Sendable>;
    fn page(_: &RequestInfo) -> Box<dyn Sendable> {
        Box::new(Page::new(200, String::from("Hello World!")))
    }
    fn file(_: &RequestInfo) -> Box<dyn Sendable> {
        Box::new(Bytes::new(200, vec![1, 2, 3], String::from("/srv/www/logo.png")))
    }
    let mut server = Webserver::new(2, vec![], page as BoxedHandler);
    server.add_route("/logo.png", file as BoxedHandler);
    assert_eq!((server.routes()[1].handler())(&request_for(ConnectionType::Http, "/", &vec![])).render(),
        "HTTP/1.1 200 OK\r\nContent-Type: image/png\r\nContent-Length: 3\r\n\r\n");
    let mut out = Vec::new();
    let r = handle_connection(
        ConnectionType::Https,
        Some("GET /logo.png HTTP/1.1"),
        server.routes(),
        server.blacklisted_paths(),
        &mut out,
    );
    assert_eq!(r, Ok(()));
    let mut expected =
        b"HTTP/1.1 200 OK\r\nContent-Type: image/png\r\nContent-Length: 3\r\n\r\n".to_vec();
    expected.extend_from_slice(&[1, 2, 3]);
    assert_eq!(out, expected);
    let mut other = Vec::new();
    let r = handle_connection(
        ConnectionType::Https,
        Some("GET /nothing HTTP/1.1"),
        server.routes(),
        server.blacklisted_paths(),
        &mut other,
    );
    assert_eq!(r, Ok(()));
    assert_eq!(other, page_bytes(200, "Hello World!"));
}

#[test]
fn route_with_an_empty_query_is_served_by_its_handler() {
    let mut server = Webserver::new(2, vec![], missing as PageHandler);
    server.add_route("/a", hello as PageHandler);
    let mut out = Vec::new();
    let r = handle_connection(
        ConnectionType::Http,
        Some("GET /a? HTTP/1.1"),
        server.routes(),
        server.blacklisted_paths(),
        &mut out,
    );
    assert_eq!(r, Ok(()));
    assert_eq!(out, page_bytes(200, "Hello World!"));
}

#[test]
fn only_the_handler_of_the_route_is_called() {
    fn fallback(_: &RequestInfo) -> Page {
        FALLBACK.fetch_add(1, Ordering::SeqCst);
        Page::new(404, String::from("nothing here"))
    }
    fn matched(_: &RequestInfo) -> Page {
        MATCHED.fetch_add(1, Ordering::SeqCst);
        Page::new(200, String::from("here"))
    }
    let mut server = Webserver::new(2, vec![], fallback as PageHandler);
    server.add_route("/p", matched as PageHandler);
    let mut out = Vec::new();
    let r = handle_connection(
        ConnectionType::Http,
        Some("GET /p HTTP/1.1"),
        server.routes(),
        server.blacklisted_paths(),
        &mut out,
    );
    assert_eq!(r, Ok(()));
    assert_eq!(out, page_bytes(200, "here"));
    assert_eq!(MATCHED.load(Ordering::SeqCst), 1);
    assert_eq!(FALLBACK.load(Ordering::SeqCst), 0);
    let r = handle_connection(
        ConnectionType::Http,
        Some("GET /q HTTP/1.1"),
        server.routes(),
        server.blacklisted_paths(),
        &mut out,
    );
    assert_eq!(r, Ok(()));
    assert_eq!(MATCHED.load(Ordering::SeqCst), 1);
    assert_eq!(FALLBACK.load(Ordering::SeqCst), 1);
}

#[test]
fn refused_route_leaves_the_table_as_it_was() {
    let mut server = Webserver::new(2, vec![], missing as PageHandler);
    assert_eq!(server.try_add_route("/", hello as PageHandler), Ok(()));
    assert_eq!(server.try_add_route("/", echo as PageHandler), Err(RouteError::Duplicate));
    assert_eq!(server.try_add_route("", echo as PageHandler), Err(RouteError::Empty));
    assert_eq!(server.try_add_route("404", echo as PageHandler), Err(RouteError::Duplicate));
    let routes: Vec<&str> = server.routes().iter().map(|h| h.route()).collect();
    assert_eq!(routes, vec!["404", "/"]);
    let mut out = Vec::new();
    let r = handle_connection(
        ConnectionType::Http,
        Some("GET / HTTP/1.1"),
        server.routes(),
        server.blacklisted_paths(),
        &mut out,
    );
    assert_eq!(r, Ok(()));
    assert_eq!(out, page_bytes(200, "Hello World!"));
}
