//! Wire protocol of the keychain daemon: the binary encoding of the
//! handshake and request packets, the length-prefixed framing used on a
//! stream, and the daemon's handshake decisions.
pub mod buffer;
pub mod version;
pub mod error;
pub mod encode;
pub mod packet;
pub mod stream;
pub mod session;
pub mod passkey;
