//! A client-side SMTP session core: the DATA-phase transparency codec, the
//! reply/extension model, command rendering, and the half-duplex protocol
//! state machine that sequences handshake, STARTTLS, authentication and
//! envelope transmission. Transport and TLS are driven by a caller that
//! performs each requested action and feeds the observed event back in.

pub mod bytes;
pub mod capabilities;
pub mod commands;
pub mod connection;
pub mod codec;
pub mod response;
