//! Which Tondi network the seeder serves.

use vstd::prelude::*;
use crate::text::{decimal_text, push_decimal};

verus! {

/// A Tondi network: mainnet, or the testnet with the given suffix.
#[derive(Clone, Copy, Debug, PartialEq, Eq, Structural)]
pub enum NetworkChoice {
    Mainnet,
    Testnet(u32),
}

/// The network the settings select: mainnet unless testnet is set; a
/// testnet with suffix 0 is testnet 10, any other suffix names its testnet.
pub fn select_network(testnet: bool, net_suffix: u16) -> (r: NetworkChoice)
    ensures
        !testnet ==> r == NetworkChoice::Mainnet,
        testnet && net_suffix == 0 ==> r == NetworkChoice::Testnet(10),
        testnet && net_suffix != 0 ==> r == NetworkChoice::Testnet(net_suffix as u32),
{
    if testnet {
        if net_suffix == 0 {
            NetworkChoice::Testnet(10)
        } else if net_suffix == 11 {
            NetworkChoice::Testnet(11)
        } else {
            NetworkChoice::Testnet(net_suffix as u32)
        }
    } else {
        NetworkChoice::Mainnet
    }
}

/// The name of a network's parameters: `tondi-mainnet`, or `tondi-testnet-`
/// followed by the testnet's suffix.
pub fn network_name(network: NetworkChoice) -> (r: String)
    ensures
        r@ == match network {
            NetworkChoice::Mainnet => "tondi-mainnet"@,
            NetworkChoice::Testnet(s) => "tondi-testnet-"@ + decimal_text(s as nat),
        },
{
    match network {
        NetworkChoice::Mainnet => "tondi-mainnet".to_owned(),
        NetworkChoice::Testnet(s) => {
            let mut r = "tondi-testnet-".to_owned();
            push_decimal(&mut r, s as u64);
            r
        },
    }
}

/// The peer-to-peer port of mainnet.
pub const MAINNET_PORT: u16 = 16111;
/// The peer-to-peer port of testnet 10.
pub const TESTNET10_PORT: u16 = 16211;
/// The peer-to-peer port of testnet 11.
pub const TESTNET11_PORT: u16 = 16311;

/// The default peer-to-peer port of a network: mainnet, testnet 10 and
/// testnet 11 have one; no other network has parameters.
pub fn default_port_of(network: NetworkChoice) -> (r: Option<u16>)
    ensures
        r == match network {
            NetworkChoice::Mainnet => Some(MAINNET_PORT),
            NetworkChoice::Testnet(10) => Some(TESTNET10_PORT),
            NetworkChoice::Testnet(11) => Some(TESTNET11_PORT),
            NetworkChoice::Testnet(_) => None::<u16>,
        },
{
    match network {
        NetworkChoice::Mainnet => Some(MAINNET_PORT),
        NetworkChoice::Testnet(s) => {
            if s == 10 {
                Some(TESTNET10_PORT)
            } else if s == 11 {
                Some(TESTNET11_PORT)
            } else {
                None
            }
        },
    }
}

} // verus!
