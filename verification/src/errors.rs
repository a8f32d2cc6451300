//! The errors of the crate.

use vstd::prelude::*;
use vstd::string::*;

verus! {

/// The error raised when a value that was expected to be present is absent.
#[derive(Debug)]
pub struct OptionUnwrapError;

impl OptionUnwrapError {
    /// The text of the error.
    pub fn message(&self) -> (r: String)
        ensures
            r@ == "`Option::unwrap()` failed"@,
    {
        String::from_str("`Option::unwrap()` failed")
    }
}

/// Why a connection was given up before a handler ran.
#[derive(Debug, Clone, Copy, PartialEq, Eq, Structural)]
pub enum ConnectionError {
    /// The stream ended before a first line.
    MissingRequestLine,
    /// The first line holds fewer than two tokens.
    MissingPath,
    /// The percent-decoded path is no UTF-8 text.
    InvalidEncoding,
}

impl ConnectionError {
    /// The text of the error.
    pub fn message(&self) -> (r: String)
        ensures
            r@ == match *self {
                ConnectionError::MissingRequestLine => "No request line found"@,
                ConnectionError::MissingPath => "No route found"@,
                ConnectionError::InvalidEncoding => "The route is not valid UTF-8"@,
            },
    {
        match self {
            ConnectionError::MissingRequestLine => String::from_str("No request line found"),
            ConnectionError::MissingPath => String::from_str("No route found"),
            ConnectionError::InvalidEncoding => String::from_str("The route is not valid UTF-8"),
        }
    }

    /// The absent-value error that stands for a missing request line or path.
    pub fn unwrap_error(&self) -> (r: Option<OptionUnwrapError>)
        ensures
            r is Some <==> *self != ConnectionError::InvalidEncoding,
    {
        match self {
            ConnectionError::InvalidEncoding => None,
            _ => Some(OptionUnwrapError),
        }
    }
}

/// Why a route cannot be registered.
#[derive(Debug, Clone, Copy, PartialEq, Eq, Structural)]
pub enum RouteError {
    /// The route is empty.
    Empty,
    /// The route is bound already.
    Duplicate,
}

impl RouteError {
    /// The text of the error.
    pub fn message(&self) -> (r: String)
        ensures
            r@ == match *self {
                RouteError::Empty => "Route cannot be empty"@,
                RouteError::Duplicate => "Route already exists"@,
            },
    {
        match self {
            RouteError::Empty => String::from_str("Route cannot be empty"),
            RouteError::Duplicate => String::from_str("Route already exists"),
        }
    }
}

/// Why the registration of a list of files stopped; each holds the index of the path
/// that it stopped at.
#[derive(Debug, Clone, Copy, PartialEq, Eq, Structural)]
pub enum FileRouteError {
    /// The path names no file.
    Unresolved(usize),
    /// The route of the path is bound already.
    Duplicate(usize),
}

impl FileRouteError {
    /// The text of the error.
    pub fn message(&self) -> (r: String)
        ensures
            r@ == match *self {
                FileRouteError::Unresolved(_) => "File not found"@,
                FileRouteError::Duplicate(_) => "Route already exists"@,
            },
    {
        match self {
            FileRouteError::Unresolved(_) => String::from_str("File not found"),
            FileRouteError::Duplicate(_) => String::from_str("Route already exists"),
        }
    }
}

/// Why a server does not start.
#[derive(Debug, Clone, Copy, PartialEq, Eq, Structural)]
pub enum StartError {
    /// The server was started before with the other kind of transport.
    TransportMismatch,
}

impl StartError {
    /// The text of the error.
    pub fn message(&self) -> (r: String)
        ensures
            r@ == "The server already uses another kind of connection"@,
    {
        String::from_str("The server already uses another kind of connection")
    }
}

} // verus!
