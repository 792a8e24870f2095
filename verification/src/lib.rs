//! Host-side logic of a remote-desktop bridge: pairing with a controller over a
//! signalling server, the key store that pairing fills, the launch handshake that
//! authenticates a controller by HMAC, input-command decoding and the screen
//! pixel pipeline.
pub mod screen;
pub mod crypto;
pub mod codec;
pub mod keystore;
pub mod text;
pub mod launching;
pub mod pairing;
pub mod laws;
pub mod input;
pub mod capture;
pub mod config;
pub mod ws;
pub mod signal;
