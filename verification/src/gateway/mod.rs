//! The HTTP gateway: request validation, routing and the data exchanged
//! with WebAssembly handlers.

pub mod routing;
pub mod io;
pub mod router;
pub mod tls;
pub mod server;
pub mod handler;
pub mod api;
pub mod websocket;
pub mod serve;
pub mod resolver;
