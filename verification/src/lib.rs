//! A small multi-threaded web server: a pool of workers, a route table, and responses
//! that render to HTTP.
//!
//! The library holds the rules of the server and proves them. It opens no socket, reads
//! no file and starts no thread: whoever runs the server reads the first line of a
//! request and hands it to `handle_connection`, which gives back the bytes of the answer;
//! it keeps the `ThreadPool` behind a lock and has its threads ask it for their jobs; and
//! it tells the `Webserver` what happened on the listener and does what it is told.

pub mod connection;
pub mod errors;
pub mod pool;
pub mod response;
pub mod routes;
pub mod sanitize;
pub mod server;
pub mod text;
pub mod utils;

pub use pool::ThreadPool;
pub use server::{
    Bytes, ConnectionInfo, ConnectionType, Handler, Page, RequestInfo, Response, Sendable, Task,
    Webserver,
};
pub use utils::{base_file_handler, base_not_found_handler, get_mime_type, handle_connection};
