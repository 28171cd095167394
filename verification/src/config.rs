//! The benchmark's configuration, as its TOML file describes it.
use vstd::prelude::*;

verus! {

/// The `[benchmark]` table: where to read, how many rounds, and the fees.
#[derive(Debug, Clone)]
pub struct BenchmarkConfig {
    pub payer_keypair_path: String,
    pub rpc_url: String,
    pub tx_count: usize,
    pub delay_ms: u64,
    pub cu_price: u64,
    pub tip: Option<u64>,
    pub jupiter_url: String,
}

/// One `[[senders]]` entry: a provider and the endpoints it is reached at.
#[derive(Debug, Clone)]
pub struct SenderConfig {
    pub name: String,
    pub urls: Vec<String>,
    pub tip_addresses: Vec<String>,
    pub api_key: Option<String>,
    pub header: Option<String>,
}

/// The whole configuration file.
#[derive(Debug, Clone)]
pub struct Config {
    pub benchmark: BenchmarkConfig,
    pub nonces: Vec<String>,
    pub senders: Vec<SenderConfig>,
}

/// Where the Jupiter swap API is reached when the configuration names none.
pub fn default_jupiter_url() -> (url: String)
    ensures
        url@ == "https://lite-api.jup.ag/swap/v1"@,
{
    String::from_str("https://lite-api.jup.ag/swap/v1")
}

} // verus!
