//! The base-URL table: which deployment of the exchange API a client
//! talks to, and the HTTP address of each.

use vstd::prelude::*;

verus! {

/// A deployment of the exchange API.
#[derive(Copy, Clone)]
pub enum BaseUrl {
    Localhost,
    Testnet,
    Mainnet,
}

/// The HTTP base address of each deployment.
pub open spec fn base_url_spec(b: BaseUrl) -> Seq<char> {
    match b {
        BaseUrl::Localhost => "http://localhost:3001"@,
        BaseUrl::Testnet => "https://api.hyperliquid-testnet.xyz"@,
        BaseUrl::Mainnet => "https://api.hyperliquid.xyz"@,
    }
}

impl BaseUrl {
    /// The base address requests to this deployment start from.
    pub fn get_url(&self) -> (r: String)
        ensures
            r@ == base_url_spec(*self),
    {
        match self {
            BaseUrl::Localhost => String::from_str("http://localhost:3001"),
            BaseUrl::Mainnet => String::from_str("https://api.hyperliquid.xyz"),
            BaseUrl::Testnet => String::from_str("https://api.hyperliquid-testnet.xyz"),
        }
    }
}

} // verus!
