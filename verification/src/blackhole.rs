//! Blackholes: servers that take in what the target sends and drop it.

pub mod udp;
