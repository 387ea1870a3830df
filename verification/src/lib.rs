//! Migration of wicked network configurations to the NetworkManager model
//! used by Agama, with the conversions specified and proved.
pub mod text;
pub mod dict;
pub mod interface;
pub mod ip;
pub mod connection;
pub mod reader;
pub mod network;
pub mod dbus;
pub mod migrate;
pub mod wireless;
pub mod netconfig;
pub mod cli;
