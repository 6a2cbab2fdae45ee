use vstd::prelude::*;

verus! {

/// Where the exchange is reached and with which keys.
#[derive(Clone, Debug)]
pub struct BinanceSetting {
    pub api_key: String,
    pub api_secret: String,
    pub test_host: String,
    pub host: String,
    pub ws_base: String,
    pub proxy: Option<String>,
}

/// The settings of the program.
#[derive(Clone, Debug)]
pub struct Setting {
    pub binance: BinanceSetting,
}

} // verus!
