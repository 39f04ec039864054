//! Client-side engine for a relay networking protocol: a byte codec, the
//! wire packets of the relay, length-prefixed framing of the control
//! channel, the data-channel envelope, the peer directory and the session
//! state machine that ties them together.

pub mod codec;
pub mod protocol;
pub mod framing;
pub mod directory;
pub mod messages;
pub mod envelope;
pub mod engine;
