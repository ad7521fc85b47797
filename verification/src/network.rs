//! Chain descriptors and the set of descriptors that a session knows.

use vstd::prelude::*;
use crate::text::{decimal_text, hex_text, push_decimal, push_hex};

verus! {

/// One network: its unique name, its chain id, the endpoint of a node, and
/// the native currency with its number of decimals.
#[derive(Debug, PartialEq, Eq)]
pub struct Network {
    pub name: String,
    pub chain_id: u32,
    pub rpc_url: String,
    pub currency: String,
    pub decimals: u32,
}

/// What a `Network` holds, with its strings as sequences of characters.
pub struct NetworkView {
    pub name: Seq<char>,
    pub chain_id: u32,
    pub rpc_url: Seq<char>,
    pub currency: Seq<char>,
    pub decimals: u32,
}

impl View for Network {
    type V = NetworkView;

    open spec fn view(&self) -> NetworkView {
        NetworkView {
            name: self.name@,
            chain_id: self.chain_id,
            rpc_url: self.rpc_url@,
            currency: self.currency@,
            decimals: self.decimals,
        }
    }
}

impl Clone for Network {
    fn clone(&self) -> (copy: Self)
        ensures
            copy == *self,
    {
        Network {
            name: self.name.clone(),
            chain_id: self.chain_id,
            rpc_url: self.rpc_url.clone(),
            currency: self.currency.clone(),
            decimals: self.decimals,
        }
    }
}

/// The chain id as wallets exchange it: `0x` and the id in lower-case
/// hexadecimal without leading zeros.
pub open spec fn chain_id_hex_text(chain_id: u32) -> Seq<char> {
    seq!['0', 'x'] + hex_text(chain_id as nat)
}

/// The label of a network: its chain id in decimal, a hyphen, its name.
pub open spec fn label_text(n: NetworkView) -> Seq<char> {
    decimal_text(n.chain_id as nat) + seq!['-'] + n.name
}

/// Ethereum's main network, as a new session knows it.
pub open spec fn mainnet_view() -> NetworkView {
    NetworkView {
        name: "mainnet"@,
        chain_id: 1,
        rpc_url: "https://eth-mainnet.g.alchemy.com/v2/rTwL6BTDDWkP3tZJUc_N6shfCSR5hsTs"@,
        currency: "ETH"@,
        decimals: 18,
    }
}

/// The Goerli test network, as a new session knows it.
pub open spec fn goerli_view() -> NetworkView {
    NetworkView {
        name: "goerli"@,
        chain_id: 5,
        rpc_url: "https://eth-goerli.g.alchemy.com/v2/rTwL6BTDDWkP3tZJUc_N6shfCSR5hsTs"@,
        currency: "ETH"@,
        decimals: 18,
    }
}

/// A local Anvil node, as a new session knows it.
pub open spec fn anvil_view() -> NetworkView {
    NetworkView {
        name: "anvil"@,
        chain_id: 31337,
        rpc_url: "http://localhost:8545"@,
        currency: "ETH"@,
        decimals: 18,
    }
}

impl Network {
    /// Ethereum's main network.
    pub fn mainnet() -> (n: Self)
        ensures
            n@ == mainnet_view(),
    {
        Network {
            name: String::from_str("mainnet"),
            chain_id: 1,
            rpc_url: String::from_str(
                "https://eth-mainnet.g.alchemy.com/v2/rTwL6BTDDWkP3tZJUc_N6shfCSR5hsTs",
            ),
            currency: String::from_str("ETH"),
            decimals: 18,
        }
    }

    /// The Goerli test network.
    pub fn goerli() -> (n: Self)
        ensures
            n@ == goerli_view(),
    {
        Network {
            name: String::from_str("goerli"),
            chain_id: 5,
            rpc_url: String::from_str(
                "https://eth-goerli.g.alchemy.com/v2/rTwL6BTDDWkP3tZJUc_N6shfCSR5hsTs",
            ),
            currency: String::from_str("ETH"),
            decimals: 18,
        }
    }

    /// A local Anvil node.
    pub fn anvil() -> (n: Self)
        ensures
            n@ == anvil_view(),
    {
        Network {
            name: String::from_str("anvil"),
            chain_id: 31337,
            rpc_url: String::from_str("http://localhost:8545"),
            currency: String::from_str("ETH"),
            decimals: 18,
        }
    }

    /// The chain id as `0x` and lower-case hexadecimal digits.
    pub fn chain_id_hex(&self) -> (hex: String)
        ensures
            hex@ == chain_id_hex_text(self.chain_id),
    {
        let mut hex = String::new();
        hex.push('0');
        hex.push('x');
        push_hex(&mut hex, self.chain_id);
        assert(hex@ =~= chain_id_hex_text(self.chain_id));
        hex
    }

    /// The label under which the network is shown: chain id, hyphen, name.
    pub fn to_string(&self) -> (label: String)
        ensures
            label@ == label_text(self@),
    {
        let mut label = String::new();
        push_decimal(&mut label, self.chain_id);
        label.push('-');
        label.append(self.name.as_str());
        assert(label@ =~= label_text(self@));
        label
    }
}

} // verus!
