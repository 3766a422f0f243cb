//! Tunnelling a byte stream through an HTTP forward proxy, without the sockets.
//!
//! The crate holds the rules of a small CONNECT client as plain functions and
//! state machines over bytes: which request is sent, when the proxy's reply
//! counts as accepted, which bytes of it belong to the tunnelled stream, and
//! how each direction of the relay proceeds. Opening connections, reading and
//! writing are left to the caller, who performs the actions that the state
//! machines ask for and reports what came of them.
//!
//! - [`settings`]: from the user's options to a route and a credential.
//! - [`request`]: the CONNECT request.
//! - [`reply`]: what the bytes of the proxy's reply amount to.
//! - [`handshake`]: reading the reply as it arrives.
//! - [`tunnel`]: the steps from connecting to the proxy to the open tunnel.
//! - [`relay`]: copying one direction of the stream.
//! - [`session`]: the way through a proxy and the direct way, compared.

pub mod handshake;
pub mod relay;
pub mod reply;
pub mod request;
pub mod session;
pub mod settings;
pub mod tunnel;
