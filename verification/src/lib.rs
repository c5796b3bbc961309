//! Command handling, connection decisions and data bridging for a browser
//! terminal that talks to an SSH shell through a websocket relay.
pub mod text;
pub mod port;
pub mod terminal;
pub mod ssh;
pub mod bridge;
