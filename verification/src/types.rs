//! Core service types: the deployment network and its public URLs.

use vstd::prelude::*;

use crate::encoding::str_eq;

verus! {

/// Gas budget for simulated policy executions.
pub const GAS_BUDGET: u64 = 500_000_000;

/// The network environment the service runs against.
#[derive(Clone, Debug)]
pub enum Network {
    /// Development network.
    Devnet,
    /// Test network.
    Testnet,
    /// Production network.
    Mainnet,
    /// A custom deployment with explicit endpoints.
    Custom {
        node_url: String,
        graphql_url: String,
        explorer_url: Option<String>,
    },
}

impl Network {
    /// The full-node URL of this network.
    pub open spec fn spec_node_url(self) -> Seq<char> {
        match self {
            Network::Devnet => "https://fullnode.devnet.sui.io:443"@,
            Network::Testnet => "https://fullnode.testnet.sui.io:443"@,
            Network::Mainnet => "https://fullnode.mainnet.sui.io:443"@,
            Network::Custom { node_url, .. } => node_url@,
        }
    }

    /// The full-node URL of this network.
    pub fn node_url(&self) -> (r: String)
        ensures
            r@ == self.spec_node_url(),
    {
        match self {
            Network::Devnet => String::from_str("https://fullnode.devnet.sui.io:443"),
            Network::Testnet => String::from_str("https://fullnode.testnet.sui.io:443"),
            Network::Mainnet => String::from_str("https://fullnode.mainnet.sui.io:443"),
            Network::Custom { node_url, .. } => node_url.clone(),
        }
    }

    /// The GraphQL endpoint of this network.
    pub open spec fn spec_graphql_url(self) -> Seq<char> {
        match self {
            Network::Devnet => "https://sui-devnet.mystenlabs.com/graphql"@,
            Network::Testnet => "https://sui-testnet.mystenlabs.com/graphql"@,
            Network::Mainnet => "https://sui-mainnet.mystenlabs.com/graphql"@,
            Network::Custom { graphql_url, .. } => graphql_url@,
        }
    }

    /// The GraphQL endpoint of this network.
    pub fn graphql_url(&self) -> (r: String)
        ensures
            r@ == self.spec_graphql_url(),
    {
        match self {
            Network::Devnet => String::from_str("https://sui-devnet.mystenlabs.com/graphql"),
            Network::Testnet => String::from_str("https://sui-testnet.mystenlabs.com/graphql"),
            Network::Mainnet => String::from_str("https://sui-mainnet.mystenlabs.com/graphql"),
            Network::Custom { graphql_url, .. } => graphql_url.clone(),
        }
    }

    /// The chain-explorer base URL of this network.
    pub open spec fn spec_explorer_base_url(self) -> Seq<char> {
        match self {
            Network::Devnet => "https://suiscan.xyz/devnet"@,
            Network::Testnet => "https://suiscan.xyz/testnet"@,
            Network::Mainnet => "https://suiscan.xyz/mainnet"@,
            Network::Custom { explorer_url, .. } => match explorer_url {
                Some(url) => url@,
                None => "https://suiscan.xyz/testnet"@,
            },
        }
    }

    /// The chain-explorer base URL of this network.
    pub fn explorer_base_url(&self) -> (r: String)
        ensures
            r@ == self.spec_explorer_base_url(),
    {
        match self {
            Network::Devnet => String::from_str("https://suiscan.xyz/devnet"),
            Network::Testnet => String::from_str("https://suiscan.xyz/testnet"),
            Network::Mainnet => String::from_str("https://suiscan.xyz/mainnet"),
            Network::Custom { explorer_url, .. } => match explorer_url {
                Some(url) => url.clone(),
                None => String::from_str("https://suiscan.xyz/testnet"),
            },
        }
    }

    /// Explorer URL of a transaction digest.
    pub fn explorer_tx_url(&self, digest: &str) -> (r: String)
        ensures
            r@ == self.spec_explorer_base_url() + "/tx/"@ + digest@,
    {
        let mut r = self.explorer_base_url();
        r.append("/tx/");
        r.append(digest);
        r
    }

    /// Explorer URL of an object.
    pub fn explorer_object_url(&self, object_id: &str) -> (r: String)
        ensures
            r@ == self.spec_explorer_base_url() + "/object/"@ + object_id@,
    {
        let mut r = self.explorer_base_url();
        r.append("/object/");
        r.append(object_id);
        r
    }

    /// Explorer URL of an account address.
    pub fn explorer_account_url(&self, address: &str) -> (r: String)
        ensures
            r@ == self.spec_explorer_base_url() + "/account/"@ + address@,
    {
        let mut r = self.explorer_base_url();
        r.append("/account/");
        r.append(address);
        r
    }

    /// The network a name denotes; custom deployments need explicit
    /// endpoints and are built directly.
    pub fn from_str(name: &str) -> (r: Option<Network>)
        ensures
            name@ == "devnet"@ ==> (r matches Some(n) && n is Devnet),
            name@ == "testnet"@ ==> (r matches Some(n) && n is Testnet),
            name@ == "mainnet"@ ==> (r matches Some(n) && n is Mainnet),
            !(name@ == "devnet"@ || name@ == "testnet"@ || name@ == "mainnet"@) ==> r is None,
    {
        proof {
            reveal_strlit("devnet");
            reveal_strlit("testnet");
            reveal_strlit("mainnet");
            assert("devnet"@.len() == 6);
            assert("testnet"@.len() == 7);
            assert("mainnet"@.len() == 7);
            assert("testnet"@[0] == 't');
            assert("mainnet"@[0] == 'm');
            assert("devnet"@ != "testnet"@);
            assert("devnet"@ != "mainnet"@);
            assert("testnet"@ != "mainnet"@);
        }
        if str_eq(name, "devnet") {
            Some(Network::Devnet)
        } else if str_eq(name, "testnet") {
            Some(Network::Testnet)
        } else if str_eq(name, "mainnet") {
            Some(Network::Mainnet)
        } else {
            None
        }
    }
}

} // verus!
