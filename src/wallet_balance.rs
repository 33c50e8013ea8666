//! The wallet-balance screen's state: whether it is shown and the balance
//! aggregation it started last.

use crate::address::{address_digits, hex_bytes};
use crate::aggregator::{
    chain_names, kept, pending_positions, reachability, scheduled, unit_positions, wallet_keys,
    BalanceAggregator, WorkUnit,
};
use crate::client::{url_parses, RpcBalanceClient};
use crate::settings::{ChainSettings, WalletInfo};
use vstd::prelude::*;

verus! {

pub struct WalletBalanceWindow {
    pub is_open: bool,
    pub balances: BalanceAggregator,
}

impl Default for WalletBalanceWindow {
    fn default() -> (w: WalletBalanceWindow)
        ensures
            !w.is_open,
            w.balances@.wf(),
            w.balances@.generation == 0,
            w.balances@.cells.len() == 0,
    {
        WalletBalanceWindow { is_open: false, balances: BalanceAggregator::new() }
    }
}

impl WalletBalanceWindow {
    /// Starts a balance query of every wallet on every chain, superseding
    /// the one before; see `BalanceAggregator::submit`.
    pub fn get_balance(
        &mut self,
        chain_settings: Vec<ChainSettings>,
        wallet_settings: Vec<WalletInfo>,
    ) -> (r: (Vec<Option<RpcBalanceClient>>, Vec<WorkUnit>))
        requires
            old(self).balances@.generation < u64::MAX,
            wallet_settings@.len() * chain_settings@.len() <= usize::MAX,
        ensures
            final(self).is_open == old(self).is_open,
            r.0@.len() == kept(chain_names(chain_settings@)).len(),
            forall|c: int|
                0 <= c < r.0@.len() ==> (#[trigger] r.0@[c]).is_some() == url_parses(
                    chain_settings@[kept(chain_names(chain_settings@))[c]].rpc_url@,
                ),
            final(self).balances@ == scheduled(
                (old(self).balances@.generation + 1) as u64,
                chain_settings@,
                wallet_settings@,
                reachability(r.0@),
            ),
            final(self).balances@.wf(),
            unit_positions(r.1@) == pending_positions(final(self).balances@.cells),
            forall|k: int|
                0 <= k < r.1@.len() ==> (#[trigger] r.1@[k]).generation
                    == final(self).balances@.generation && r.1@[k].address.bytes@ == hex_bytes(
                    address_digits(
                        wallet_settings@[kept(
                            wallet_keys(wallet_settings@),
                        )[r.1@[k].row as int]].address@,
                    ),
                ),
    {
        self.balances.submit(&chain_settings, &wallet_settings)
    }
}

} // verus!
