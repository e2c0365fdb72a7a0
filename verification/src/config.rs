//! The immutable configuration a running server shares with every
//! connection it accepts.

use crate::dec::{dec_bytes, u64_to_dec};
use vstd::prelude::*;

verus! {

/// The bytes `127.0.0.1:`, the loopback host the listener binds.
pub open spec fn loopback_prefix() -> Seq<u8> {
    seq![
        '1' as u8,
        '2' as u8,
        '7' as u8,
        '.' as u8,
        '0' as u8,
        '.' as u8,
        '0' as u8,
        '.' as u8,
        '1' as u8,
        ':' as u8,
    ]
}

/// What the server needs for its whole lifetime: the directory it
/// serves from and the port it listens on. It is created once at
/// startup and read, never written, by every connection.
pub struct ServerConfig {
    pub root_directory: Vec<u8>,
    pub port: u16,
}

impl ServerConfig {
    pub fn new(root_directory: Vec<u8>, port: u16) -> (c: ServerConfig)
        ensures
            c.root_directory@ == root_directory@,
            c.port == port,
    {
        ServerConfig { root_directory, port }
    }

    /// The address the listener binds: `127.0.0.1:` followed by the
    /// port in decimal.
    pub fn bind_address(&self) -> (a: Vec<u8>)
        ensures
            a@ == loopback_prefix() + dec_bytes(self.port as nat),
    {
        let mut a: Vec<u8> = vec![
            '1' as u8,
            '2' as u8,
            '7' as u8,
            '.' as u8,
            '0' as u8,
            '.' as u8,
            '0' as u8,
            '.' as u8,
            '1' as u8,
            ':' as u8,
        ];
        let d = u64_to_dec(self.port as u64);
        a.extend_from_slice(d.as_slice());
        proof {
            assert(a@ =~= loopback_prefix() + dec_bytes(self.port as nat));
        }
        a
    }
}

} // verus!
