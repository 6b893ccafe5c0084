//! Client-side core of a SOCKS5-to-SOCKS6 tunnelling proxy: profile storage,
//! the local SOCKS5 and remote SOCKS6 protocol exchanges, key material,
//! connection retry policy and system proxy command plans.
pub mod bindings;
pub mod engine;
pub mod error;
pub mod keys;
pub mod profiles;
pub mod socks5;
pub mod socks6;
pub mod sysproxy;
pub mod text;
pub mod tunnel;
pub mod wire;
