//! Connections: the two kinds of transport, and what a handler sees of a request.

use vstd::prelude::*;
use tokio::net::TcpStream;
use tokio_openssl::SslStream;

verus! {

/// `tokio::net::TcpStream`, the stream of a plain connection. The library holds it and
/// hands it out; it never looks into it.
#[verifier::external_type_specification]
#[verifier::external_body]
pub struct ExTcpStream(TcpStream);

/// `tokio_openssl::SslStream`, the stream of an encrypted connection. The library holds
/// it and hands it out; it never looks into it.
#[verifier::external_type_specification]
#[verifier::external_body]
#[verifier::reject_recursive_types(S)]
pub struct ExSslStream<S>(SslStream<S>);

/// The two kinds of transport.
#[derive(Debug, Clone, Copy, PartialEq, Eq, Structural)]
pub enum ConnectionType {
    /// Plain text over TCP.
    Http,
    /// TLS over TCP.
    Https,
}

#[derive(Debug)]
enum Transport {
    Plain(TcpStream),
    Encrypted(SslStream<TcpStream>),
}

/// One accepted connection: a plain stream or an encrypted one, never both.
#[derive(Debug)]
pub struct ConnectionInfo {
    transport: Transport,
}

impl ConnectionInfo {
    /// The kind of the connection.
    pub closed spec fn kind(&self) -> ConnectionType {
        match self.transport {
            Transport::Plain(_) => ConnectionType::Http,
            Transport::Encrypted(_) => ConnectionType::Https,
        }
    }

    /// The stream of a plain connection.
    pub closed spec fn plain(&self) -> Option<TcpStream> {
        match self.transport {
            Transport::Plain(stream) => Some(stream),
            Transport::Encrypted(_) => None,
        }
    }

    /// The stream of an encrypted connection.
    pub closed spec fn encrypted(&self) -> Option<SslStream<TcpStream>> {
        match self.transport {
            Transport::Plain(_) => None,
            Transport::Encrypted(stream) => Some(stream),
        }
    }

    /// A connection has the one stream that goes with its kind.
    pub proof fn lemma_one_stream(&self)
        ensures
            self.kind() == ConnectionType::Http <==> self.plain() is Some,
            self.kind() == ConnectionType::Https <==> self.encrypted() is Some,
            self.plain() is Some <==> self.encrypted() is None,
    {
    }

    /// A plain connection over `stream`.
    pub fn new(stream: TcpStream) -> (r: ConnectionInfo)
        ensures
            r.kind() == ConnectionType::Http,
            r.plain() == Some(stream),
    {
        ConnectionInfo { transport: Transport::Plain(stream) }
    }

    /// An encrypted connection over `stream`.
    pub fn new_ssl(stream: SslStream<TcpStream>) -> (r: ConnectionInfo)
        ensures
            r.kind() == ConnectionType::Https,
            r.encrypted() == Some(stream),
    {
        ConnectionInfo { transport: Transport::Encrypted(stream) }
    }

    /// The stream of a plain connection, to read from and write to. The connection must
    /// be plain.
    pub fn stream(&mut self) -> (r: &mut TcpStream)
        requires
            old(self).kind() == ConnectionType::Http,
        ensures
            Some(*r) == old(self).plain(),
            final(self).plain() == Some(*final(r)),
            final(self).kind() == ConnectionType::Http,
    {
        match &mut self.transport {
            Transport::Plain(stream) => stream,
            Transport::Encrypted(_) => vstd::pervasive::unreached(),
        }
    }

    /// The stream of an encrypted connection, to read from and write to. The connection
    /// must be encrypted.
    pub fn ssl_stream(&mut self) -> (r: &mut SslStream<TcpStream>)
        requires
            old(self).kind() == ConnectionType::Https,
        ensures
            Some(*r) == old(self).encrypted(),
            final(self).encrypted() == Some(*final(r)),
            final(self).kind() == ConnectionType::Https,
    {
        match &mut self.transport {
            Transport::Encrypted(stream) => stream,
            Transport::Plain(_) => vstd::pervasive::unreached(),
        }
    }

    /// The kind of the connection.
    pub fn connection_type(&self) -> (r: &ConnectionType)
        ensures
            *r == self.kind(),
    {
        match &self.transport {
            Transport::Plain(_) => &ConnectionType::Http,
            Transport::Encrypted(_) => &ConnectionType::Https,
        }
    }
}

/// What the owner of a server can send it while it runs.
#[derive(Debug)]
pub enum Task {
    /// A connection that was accepted elsewhere.
    Connection(ConnectionInfo),
    /// The request to stop accepting connections.
    Shutdown,
}

/// What a handler sees of a request. It lives as long as the handler runs.
pub struct RequestInfo<'a> {
    /// The kind of the connection that the request came over.
    pub connection_type: ConnectionType,
    /// The sanitized path of the request.
    pub route: &'a str,
    /// The canonical paths of the files that must not be served.
    pub blacklisted_paths: &'a Vec<String>,
}

impl<'a> RequestInfo<'a> {
    /// The request for `route` that came over `conn`.
    pub fn new(conn: &ConnectionInfo, route: &'a str, blacklisted_paths: &'a Vec<String>) -> (r:
        RequestInfo<'a>)
        ensures
            r.connection_type == conn.kind(),
            r.route == route,
            r.blacklisted_paths == blacklisted_paths,
    {
        RequestInfo { connection_type: *conn.connection_type(), route, blacklisted_paths }
    }
}

} // verus!
