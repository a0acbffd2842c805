use vstd::prelude::*;

verus! {

/// The Bitcoin network whose frames a framer accepts.
#[derive(Debug, Clone, Copy, PartialEq, Eq, Structural)]
pub enum Network {
    Bitcoin,
    Testnet,
    Signet,
    Regtest,
}

/// The four-byte magic that starts every frame of a network.
pub open spec fn network_magic(n: Network) -> Seq<u8> {
    match n {
        Network::Bitcoin => seq![0xF9u8, 0xBEu8, 0xB4u8, 0xD9u8],
        Network::Testnet => seq![0x0Bu8, 0x11u8, 0x09u8, 0x07u8],
        Network::Signet => seq![0x0Au8, 0x03u8, 0xCFu8, 0x40u8],
        Network::Regtest => seq![0xFAu8, 0xBFu8, 0xB5u8, 0xDAu8],
    }
}

impl Network {
    /// The network's magic bytes.
    pub fn magic(&self) -> (r: [u8; 4])
        ensures
            r@ == network_magic(*self),
    {
        let r = match self {
            Network::Bitcoin => [0xF9u8, 0xBEu8, 0xB4u8, 0xD9u8],
            Network::Testnet => [0x0Bu8, 0x11u8, 0x09u8, 0x07u8],
            Network::Signet => [0x0Au8, 0x03u8, 0xCFu8, 0x40u8],
            Network::Regtest => [0xFAu8, 0xBFu8, 0xB5u8, 0xDAu8],
        };
        assert(r@ =~= network_magic(*self));
        r
    }
}

} // verus!
