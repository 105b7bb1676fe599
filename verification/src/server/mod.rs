//! The server: who may connect, what a request asks for, and what it is answered.

pub mod access_log;
pub mod admission;
pub mod answers;
pub mod body;
pub mod certificates;
pub mod der;
pub mod handler;
pub mod lifecycle;
pub mod limits;
pub mod peer;
pub mod request;
pub mod response;
pub mod session;
pub mod targets;
pub mod threaded_proxy;
pub mod tls;
