//! A minimal HTTP file server library: request-line parsing, filesystem
//! target classification, response rendering, and a worker-pool job-queue
//! model. All logic works over plain bytes; sockets, threads and the
//! filesystem live outside the library.

pub mod ascii;
pub mod html;
pub mod laws;
pub mod pool;
pub mod request;
pub mod resolve;
pub mod response;
