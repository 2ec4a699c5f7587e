//! Authenticated, time-bounded network access control: the request and
//! response protocol and the server's lease state machine.

pub mod addr;
pub mod client;
pub mod err;
pub mod hex;
pub mod keys;
pub mod lease;
pub mod names;
pub mod packet;
pub mod req;
pub mod resp;
pub mod server;
pub mod session;
pub mod state;
pub mod text;
pub mod time;
