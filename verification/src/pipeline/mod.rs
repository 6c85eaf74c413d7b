//! The request pipeline: from the bytes of a connection to the response.

pub mod balance;
pub mod chance;
pub mod dispatch;
pub mod meta;
pub mod response;
pub mod session;
pub mod stream;
pub mod upstream;
pub mod websocket;
