//! Core of a BitTorrent client.
pub mod bencode;
pub mod codec;
pub mod daemon;
pub mod dashboard;
pub mod disk;
pub mod io_error;
pub mod metainfo;
pub mod octets;
pub mod peer;
pub mod text;
pub mod tracker;
