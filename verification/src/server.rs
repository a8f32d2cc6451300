//! The server: the registration of routes, and what it decides while it runs.

use vstd::prelude::*;
use vstd::string::*;
use crate::errors::{FileRouteError, RouteError, StartError};
use crate::text::str_eq;
use tokio::sync::mpsc::Receiver;

pub use crate::connection::{ConnectionInfo, ConnectionType, RequestInfo, Task};
pub use crate::response::{
    content_length, content_type, status_line, wire, Bytes, BytesView, Page, PageView, Response,
    ResponseView, Sendable,
};
pub use crate::routes::{
    bindings, clone_routes, find_handler, first_match, is_bound, last_fallback,
    lemma_added_route_is_bound, lemma_fallback_follows_replacement, lemma_lookup_unique,
    lemma_snapshot_lookup, lemma_unbound_path_falls_back, not_found_route, resolves_to,
    snapshot_of, table_wf, Binding, Handler,
};

verus! {

/// `tokio::sync::mpsc::Receiver`, the receiving end of the channel of the server's owner.
/// The library holds it and hands it out; it never receives from it.
#[verifier::external_type_specification]
#[verifier::external_body]
#[verifier::reject_recursive_types(T)]
pub struct ExReceiver<T>(Receiver<T>);

/// The route under which the file at `path` is served: a slash, then the path.
pub open spec fn file_route(path: Seq<char>) -> Seq<char> {
    seq!['/'] + path
}

/// The two files that an encrypted server reads at its start, both in PEM.
pub struct TlsFiles {
    /// The path of the private key.
    pub private_key_file: String,
    /// The path of the certificate chain.
    pub certificate_chain_file: String,
}

/// What happened while the server waited.
pub enum ServerEvent {
    /// The listener accepted a connection of this kind.
    Accepted(ConnectionType),
    /// The listener failed to accept a connection.
    AcceptFailed,
    /// The channel of the owner gave a task, or is closed.
    Message(Option<Task>),
}

/// What a worker needs to serve one accepted connection: the route table and the
/// blacklist as they were when the connection was accepted.
pub struct Dispatch<H> {
    pub routes: Vec<Handler<H>>,
    pub blacklisted_paths: Vec<String>,
}

/// What the server does after an event.
pub enum ServerAction<H> {
    /// Hand the accepted connection to the worker pool with this snapshot, and go on.
    Submit(Dispatch<H>),
    /// Go on.
    Continue,
    /// Stop accepting connections.
    Shutdown,
}

/// The state of a server: the route table, the number of workers, the blacklist, and the
/// kind of transport once the server was started.
pub struct Webserver<H> {
    routes: Vec<Handler<H>>,
    thread_amount: usize,
    blacklisted_paths: Vec<String>,
    connection_type: Option<ConnectionType>,
    receiver: Option<Receiver<Task>>,
}

impl<H> Webserver<H> {
    /// What holds of every server: its route table is as `table_wf` says and it has at
    /// least one worker.
    pub closed spec fn wf(&self) -> bool {
        table_wf(bindings(self.routes@)) && self.thread_amount > 0
    }

    /// A well-formed server has a route table as `table_wf` says, and a worker.
    pub proof fn lemma_wf_table(&self)
        requires
            self.wf(),
        ensures
            table_wf(self.table()),
            self.threads() > 0,
    {
    }

    /// The route table.
    pub closed spec fn table(&self) -> Seq<Binding<H>> {
        bindings(self.routes@)
    }

    /// The number of workers.
    pub closed spec fn threads(&self) -> nat {
        self.thread_amount as nat
    }

    /// The canonical paths of the files that are not served.
    pub closed spec fn blacklist(&self) -> Seq<Seq<char>> {
        self.blacklisted_paths.deep_view()
    }

    /// The kind of transport that the server was started with, if it was.
    pub closed spec fn transport(&self) -> Option<ConnectionType> {
        self.connection_type
    }

    /// The channel over which the owner sends tasks, if there is one.
    pub closed spec fn channel(&self) -> Option<Receiver<Task>> {
        self.receiver
    }

    /// A server with `thread_amount` workers that serves requests for unknown routes with
    /// `not_found_handler`. `blacklisted_paths` holds the canonical paths of the files
    /// that are never served.
    pub fn new(thread_amount: usize, blacklisted_paths: Vec<String>, not_found_handler: H) -> (r:
        Webserver<H>)
        requires
            thread_amount > 0,
        ensures
            r.wf(),
            r.table() == seq![(Binding { route: not_found_route(), handler: not_found_handler })],
            r.threads() == thread_amount,
            r.blacklist() == blacklisted_paths.deep_view(),
            r.transport() is None,
            r.channel() is None,
    {
        proof {
            reveal_strlit("404");
            assert("404"@ =~= not_found_route());
        }
        let mut routes: Vec<Handler<H>> = Vec::new();
        routes.push(Handler::new("404", not_found_handler));
        assert(bindings(routes@) =~= seq![
            (Binding { route: not_found_route(), handler: not_found_handler }),
        ]);
        Webserver {
            routes,
            thread_amount,
            blacklisted_paths,
            connection_type: None,
            receiver: None,
        }
    }

    /// The number of workers.
    pub fn thread_amount(&self) -> (r: usize)
        requires
            self.wf(),
        ensures
            r == self.threads(),
            r > 0,
    {
        self.thread_amount
    }

    /// The route table, in the order of registration.
    pub fn routes(&self) -> (r: &Vec<Handler<H>>)
        requires
            self.wf(),
        ensures
            bindings(r@) == self.table(),
            table_wf(self.table()),
    {
        &self.routes
    }

    /// The canonical paths of the files that are not served.
    pub fn blacklisted_paths(&self) -> (r: &Vec<String>)
        ensures
            r.deep_view() == self.blacklist(),
    {
        &self.blacklisted_paths
    }

    /// The kind of transport that the server was started with, if it was.
    pub fn connection_type(&self) -> (r: &Option<ConnectionType>)
        ensures
            *r == self.transport(),
    {
        &self.connection_type
    }

    /// The server with `receiver` as the channel over which its owner sends tasks.
    pub fn with_receiver(self, receiver: Receiver<Task>) -> (r: Webserver<H>)
        requires
            self.wf(),
        ensures
            r.wf(),
            r.channel() == Some(receiver),
            r.table() == self.table(),
            r.threads() == self.threads(),
            r.blacklist() == self.blacklist(),
            r.transport() == self.transport(),
    {
        Webserver {
            routes: self.routes,
            thread_amount: self.thread_amount,
            blacklisted_paths: self.blacklisted_paths,
            connection_type: self.connection_type,
            receiver: Some(receiver),
        }
    }

    /// Replaces the handler of requests that no route serves.
    pub fn set_404_callback(&mut self, callback: H)
        requires
            old(self).wf(),
        ensures
            final(self).wf(),
            final(self).table() == old(self).table().update(
                0,
                Binding { route: not_found_route(), handler: callback },
            ),
            final(self).threads() == old(self).threads(),
            final(self).blacklist() == old(self).blacklist(),
            final(self).transport() == old(self).transport(),
            final(self).channel() == old(self).channel(),
    {
        proof {
            reveal_strlit("404");
            assert("404"@ =~= not_found_route());
        }
        let ghost before = bindings(self.routes@);
        self.routes[0] = Handler::new("404", callback);
        proof {
            let after = bindings(self.routes@);
            assert(after =~= before.update(
                0,
                Binding { route: not_found_route(), handler: callback },
            ));
            assert forall|i: int| 0 <= i < after.len() implies (#[trigger] after[i].route).len()
                > 0 by {
                assert(after[i].route == before[i].route);
            }
            assert forall|i: int, j: int| 0 <= i < j < after.len() implies #[trigger] after[i].route
                != #[trigger] after[j].route by {
                assert(after[i].route == before[i].route);
                assert(after[j].route == before[j].route);
            }
        }
    }

    /// Tells whether `route` can be registered, and if not, why.
    pub fn check_route(&self, route: &str) -> (r: Result<(), RouteError>)
        ensures
            match r {
                Ok(()) => route@.len() > 0 && !is_bound(self.table(), route@),
                Err(RouteError::Empty) => route@.len() == 0,
                Err(RouteError::Duplicate) => route@.len() > 0 && is_bound(self.table(), route@),
            },
    {
        if route.is_empty() {
            return Err(RouteError::Empty);
        }
        let ghost table = bindings(self.routes@);
        let mut i: usize = 0;
        while i < self.routes.len()
            invariant
                i <= self.routes.len(),
                table == bindings(self.routes@),
                table == self.table(),
                route@.len() > 0,
                forall|j: int| 0 <= j < i ==> #[trigger] table[j].route != route@,
            decreases self.routes.len() - i,
        {
            assert(table[i as int] == self.routes@[i as int]@);
            if str_eq(self.routes[i].route(), route) {
                assert(table[i as int].route == route@);
                return Err(RouteError::Duplicate);
            }
            i = i + 1;
        }
        Ok(())
    }

    /// Binds `handler` to `route` if the route is new and not empty. Otherwise it tells
    /// why not, and the server stays as it is: no empty route and no second binding of a
    /// route ever gets into the table.
    pub fn try_add_route(&mut self, route: &str, handler: H) -> (r: Result<(), RouteError>)
        requires
            old(self).wf(),
        ensures
            final(self).wf(),
            final(self).threads() == old(self).threads(),
            final(self).blacklist() == old(self).blacklist(),
            final(self).transport() == old(self).transport(),
            final(self).channel() == old(self).channel(),
            match r {
                Ok(()) => {
                    &&& route@.len() > 0
                    &&& !is_bound(old(self).table(), route@)
                    &&& final(self).table() == old(self).table().push(
                        Binding { route: route@, handler },
                    )
                },
                Err(RouteError::Empty) => {
                    &&& route@.len() == 0
                    &&& final(self).table() == old(self).table()
                },
                Err(RouteError::Duplicate) => {
                    &&& route@.len() > 0
                    &&& is_bound(old(self).table(), route@)
                    &&& final(self).table() == old(self).table()
                },
            },
    {
        match self.check_route(route) {
            Ok(()) => {
                self.add_route(route, handler);
                Ok(())
            },
            Err(e) => Err(e),
        }
    }

    /// Binds `handler` to `route`. The route must be new and not empty.
    pub fn add_route(&mut self, route: &str, handler: H)
        requires
            old(self).wf(),
            route@.len() > 0,
            !is_bound(old(self).table(), route@),
        ensures
            final(self).wf(),
            final(self).table() == old(self).table().push(Binding { route: route@, handler }),
            final(self).threads() == old(self).threads(),
            final(self).blacklist() == old(self).blacklist(),
            final(self).transport() == old(self).transport(),
            final(self).channel() == old(self).channel(),
    {
        let ghost before = bindings(self.routes@);
        let binding = Handler::new(route, handler);
        proof {
            let after = before.push(binding@);
            assert(bindings(self.routes@.push(binding)) =~= after);
            assert forall|i: int, j: int| 0 <= i < j < after.len() implies #[trigger] after[i].route
                != #[trigger] after[j].route by {
                if j == before.len() {
                    assert(before[i].route != route@);
                } else {
                    assert(before[i].route != before[j].route);
                }
            }
            assert(table_wf(after));
        }
        self.routes.push(binding);
    }
}

impl<H> Webserver<H> {
    /// Fixes the kind of transport and tells what an encrypted server needs to read. A
    /// server that was started with one kind refuses the other. An encrypted server needs
    /// both files.
    pub fn start(
        &mut self,
        connection_type: ConnectionType,
        pk: Option<String>,
        sslc: Option<String>,
    ) -> (r: Result<Option<TlsFiles>, StartError>)
        requires
            old(self).wf(),
            connection_type == ConnectionType::Https ==> pk is Some && sslc is Some,
        ensures
            final(self).wf(),
            final(self).table() == old(self).table(),
            final(self).threads() == old(self).threads(),
            final(self).blacklist() == old(self).blacklist(),
            final(self).channel() == old(self).channel(),
            match r {
                Ok(files) => {
                    &&& old(self).transport() is None || old(self).transport() == Some(
                        connection_type,
                    )
                    &&& final(self).transport() == Some(connection_type)
                    &&& match connection_type {
                        ConnectionType::Http => files is None,
                        ConnectionType::Https => files == Some(
                            TlsFiles { private_key_file: pk->0, certificate_chain_file: sslc->0 },
                        ),
                    }
                },
                Err(StartError::TransportMismatch) => {
                    &&& old(self).transport() is Some
                    &&& old(self).transport() != Some(connection_type)
                    &&& final(self).transport() == old(self).transport()
                },
            },
    {
        match self.connection_type {
            Some(kind) => {
                if kind != connection_type {
                    return Err(StartError::TransportMismatch);
                }
            },
            None => {},
        }
        self.connection_type = Some(connection_type);
        match connection_type {
            ConnectionType::Http => Ok(None),
            ConnectionType::Https => Ok(
                Some(
                    TlsFiles {
                        private_key_file: pk.unwrap(),
                        certificate_chain_file: sslc.unwrap(),
                    },
                ),
            ),
        }
    }

    /// Takes the channel of the owner out of the server, for one receive.
    pub fn take_receiver(&mut self) -> (r: Option<Receiver<Task>>)
        requires
            old(self).wf(),
        ensures
            final(self).wf(),
            r == old(self).channel(),
            final(self).channel() is None,
            final(self).table() == old(self).table(),
            final(self).threads() == old(self).threads(),
            final(self).blacklist() == old(self).blacklist(),
            final(self).transport() == old(self).transport(),
    {
        self.receiver.take()
    }

    /// Settles one receive on `receiver`: a task is handed on and the channel is kept; a
    /// closed channel is dropped.
    pub fn receive(&mut self, receiver: Receiver<Task>, message: Option<Task>) -> (r: Option<Task>)
        requires
            old(self).wf(),
        ensures
            final(self).wf(),
            r == message,
            message is Some ==> final(self).channel() == Some(receiver),
            message is None ==> final(self).channel() is None,
            final(self).table() == old(self).table(),
            final(self).threads() == old(self).threads(),
            final(self).blacklist() == old(self).blacklist(),
            final(self).transport() == old(self).transport(),
    {
        match message {
            Some(task) => {
                self.receiver = Some(receiver);
                Some(task)
            },
            None => {
                self.receiver = None;
                None
            },
        }
    }
}

/// A copy of a list of paths.
pub fn clone_paths(paths: &Vec<String>) -> (r: Vec<String>)
    ensures
        r.deep_view() == paths.deep_view(),
{
    let mut r: Vec<String> = Vec::new();
    let mut i: usize = 0;
    while i < paths.len()
        invariant
            i <= paths.len(),
            r.len() == i,
            forall|j: int| 0 <= j < i ==> (#[trigger] r@[j])@ == paths@[j]@,
        decreases paths.len() - i,
    {
        r.push(paths[i].clone());
        i = i + 1;
    }
    assert(r.deep_view() =~= paths.deep_view());
    r
}

impl<H: Clone> Webserver<H> {
    /// Registers each of `paths` under the route `file_route` gives it, bound to a clone
    /// of `handler`. `resolved` tells of each path whether it names a file. The paths are
    /// taken in order up to the first that names no file or whose route is bound already.
    pub fn add_accessible_files(&mut self, paths: Vec<&str>, resolved: &Vec<bool>, handler: H) -> (r:
        Result<(), FileRouteError>)
        requires
            old(self).wf(),
            resolved.len() == paths.len(),
        ensures
            final(self).wf(),
            final(self).threads() == old(self).threads(),
            final(self).blacklist() == old(self).blacklist(),
            final(self).transport() == old(self).transport(),
            final(self).channel() == old(self).channel(),
            ({
                let before = old(self).table();
                let after = final(self).table();
                let added = after.len() - before.len();
                &&& 0 <= added <= paths.len()
                &&& after.take(before.len() as int) == before
                &&& forall|i: int| 0 <= i < added ==> resolved@[i]
                &&& forall|k: int|
                    before.len() <= k < after.len() ==> {
                        &&& (#[trigger] after[k]).route == file_route(paths[k - before.len()]@)
                        &&& cloned(handler, after[k].handler)
                    }
                &&& match r {
                    Ok(()) => added == paths.len(),
                    Err(FileRouteError::Unresolved(k)) => k == added < paths.len() && !resolved[k as int],
                    Err(FileRouteError::Duplicate(k)) => k == added < paths.len() && resolved[k as int]
                        && is_bound(after, file_route(paths[k as int]@)),
                }
            }),
    {
        let ghost before = self.table();
        proof {
            reveal_strlit("/");
            assert(self.table().take(before.len() as int) =~= before);
        }
        let mut i: usize = 0;
        while i < paths.len()
            invariant
                i <= paths.len(),
                resolved.len() == paths.len(),
                "/"@ == seq!['/'],
                self.wf(),
                self.threads() == old(self).threads(),
                self.blacklist() == old(self).blacklist(),
                self.transport() == old(self).transport(),
                self.channel() == old(self).channel(),
                before == old(self).table(),
                self.table().len() == before.len() + i,
                self.table().take(before.len() as int) == before,
                forall|j: int| 0 <= j < i ==> resolved@[j],
                forall|k: int|
                    before.len() <= k < before.len() + i ==> {
                        &&& (#[trigger] self.table()[k]).route == file_route(
                            paths[k - before.len()]@,
                        )
                        &&& cloned(handler, self.table()[k].handler)
                    },
            decreases paths.len() - i,
        {
            if !resolved[i] {
                return Err(FileRouteError::Unresolved(i));
            }
            let mut route = String::from_str("/");
            route.append(paths[i]);
            assert(route@ =~= file_route(paths[i as int]@));
            match self.check_route(route.as_str()) {
                Ok(()) => {},
                Err(_) => {
                    return Err(FileRouteError::Duplicate(i));
                },
            }
            let ghost table = self.table();
            let copy = handler.clone();
            self.add_route(route.as_str(), copy);
            proof {
                let after = self.table();
                assert(after.take(before.len() as int) =~= table.take(before.len() as int));
                assert forall|k: int| before.len() <= k < before.len() + i + 1 implies {
                    &&& (#[trigger] after[k]).route == file_route(paths[k - before.len()]@)
                    &&& cloned(handler, after[k].handler)
                } by {
                    if k < before.len() + i {
                        assert(after[k] == table[k]);
                    }
                }
            }
            i = i + 1;
        }
        Ok(())
    }

    /// Decides what follows an event. A connection of the server's kind of transport
    /// becomes work for a worker, with a snapshot of the route table and of the
    /// blacklist; any other connection is dropped. A request to shut down ends the loop.
    /// Everything else is passed over.
    pub fn step(&self, event: ServerEvent) -> (r: ServerAction<H>)
        requires
            self.wf(),
        ensures
            match event {
                ServerEvent::Accepted(kind) => if self.transport() == Some(kind) {
                    &&& r matches ServerAction::Submit(work)
                    &&& snapshot_of(self.table(), bindings(work.routes@))
                    &&& work.blacklisted_paths.deep_view() == self.blacklist()
                } else {
                    r is Continue
                },
                ServerEvent::AcceptFailed => r is Continue,
                ServerEvent::Message(Some(Task::Shutdown)) => r is Shutdown,
                ServerEvent::Message(_) => r is Continue,
            },
    {
        match event {
            ServerEvent::Accepted(kind) => {
                match self.connection_type {
                    Some(own) => {
                        if own == kind {
                            ServerAction::Submit(
                                Dispatch {
                                    routes: clone_routes(&self.routes),
                                    blacklisted_paths: clone_paths(&self.blacklisted_paths),
                                },
                            )
                        } else {
                            ServerAction::Continue
                        }
                    },
                    None => ServerAction::Continue,
                }
            },
            ServerEvent::AcceptFailed => ServerAction::Continue,
            ServerEvent::Message(Some(Task::Shutdown)) => ServerAction::Shutdown,
            ServerEvent::Message(_) => ServerAction::Continue,
        }
    }
}

} // verus!
