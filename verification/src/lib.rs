//! Library core of a small music-streaming system: a server that walks a
//! music library and streams songs to clients, and clients that cache and
//! queue what they receive.

pub mod doom;
pub mod doomrakr_worker;
pub mod doomreadr;
pub mod fs_walker;
pub mod headers;
pub mod logger;
pub mod player;
pub mod song;
pub mod text;
pub mod wire;
