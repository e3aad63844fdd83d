//! Private MAC address generator: random locally administered unicast
//! addresses and address prefixes, driven by POSIX and GNU style flags.
pub mod text;
pub mod hex;
pub mod args;
pub mod address;
pub mod cli;
