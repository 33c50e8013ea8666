//! One chain's RPC endpoint: connecting to it, and turning the outcome of a
//! balance request into a balance cell.

use crate::codec::{balance_text, format_balance, Wei};
use crate::settings::ChainSettings;
use ethers::providers::{Http, Provider};
use vstd::prelude::*;

verus! {

#[verifier::external_type_specification]
#[verifier::external_body]
#[verifier::reject_recursive_types(P)]
pub struct ExProvider<P>(Provider<P>);

#[verifier::external_type_specification]
#[verifier::external_body]
pub struct ExHttp(Http);

/// The number of fractional digits of a chain's native currency.
pub const NATIVE_DECIMALS: u32 = 18;

/// The outcome of querying one wallet's balance on one chain.
#[derive(Clone, Debug, PartialEq, Eq)]
pub enum BalanceCell {
    /// The balance, as decimal text in whole units of the currency.
    Balance(String),
    /// The address is not `0x` and forty hex digits; nothing was sent.
    InvalidAddress,
    /// The request failed or its answer could not be read.
    QueryFailed(String),
    /// The chain's endpoint could not be set up; nothing was sent.
    EndpointUnavailable,
}

/// Whether `url::Url::parse` accepts the text.
pub uninterp spec fn url_parses(s: Seq<char>) -> bool;

/// Relies on `Provider::<Http>::try_from(&str)` of ethers: it parses the
/// text with `url::Url::parse`, fails exactly when that fails, and
/// otherwise wraps the URL and a new reqwest client without any request.
#[verifier::external_body]
fn http_provider(url: &str) -> (r: Option<Provider<Http>>)
    ensures
        r.is_some() == url_parses(url@),
{
    Provider::<Http>::try_from(url).ok()
}

/// A connection to the JSON-RPC endpoint of one chain, read-only once made.
pub struct RpcBalanceClient {
    pub chain_name: String,
    /// The provider that balance requests go through.
    pub provider: Provider<Http>,
}

impl RpcBalanceClient {
    /// Sets up the endpoint of `chain`; `None` where its URL is malformed.
    pub fn connect(chain: &ChainSettings) -> (r: Option<RpcBalanceClient>)
        ensures
            r.is_some() == url_parses(chain.rpc_url@),
            r matches Some(c) ==> c.chain_name == chain.chain_name,
    {
        match http_provider(chain.rpc_url.as_str()) {
            Some(provider) => Some(RpcBalanceClient { chain_name: chain.chain_name.clone(), provider }),
            None => None,
        }
    }
}

/// The cell for the outcome of one balance request: the balance in whole
/// units, or the failure's reason.
pub fn balance_cell(outcome: Result<Wei, String>) -> (cell: BalanceCell)
    ensures
        outcome matches Ok(w) ==> cell matches BalanceCell::Balance(t) && t@ == balance_text(
            w.value(),
            NATIVE_DECIMALS as nat,
        ),
        outcome matches Err(reason) ==> cell == BalanceCell::QueryFailed(reason),
{
    match outcome {
        Ok(w) => BalanceCell::Balance(format_balance(&w, NATIVE_DECIMALS)),
        Err(reason) => BalanceCell::QueryFailed(reason),
    }
}

} // verus!
