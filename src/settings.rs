//! The chain and wallet lists that a balance query is made from, and the
//! editing that the settings screens do on them.

use vstd::prelude::*;

verus! {

/// A named chain and the URL of its JSON-RPC endpoint.
#[derive(Clone, Debug)]
pub struct ChainSettings {
    pub chain_name: String,
    pub rpc_url: String,
}

impl ChainSettings {
    pub fn new(chain_name: String, rpc_url: String) -> (c: ChainSettings)
        ensures
            c.chain_name == chain_name,
            c.rpc_url == rpc_url,
    {
        ChainSettings { chain_name, rpc_url }
    }
}

impl Default for ChainSettings {
    fn default() -> (c: ChainSettings)
        ensures
            c.chain_name@ == Seq::<char>::empty(),
            c.rpc_url@ == Seq::<char>::empty(),
    {
        ChainSettings { chain_name: String::new(), rpc_url: String::new() }
    }
}

/// A wallet: a label chosen by the user and a candidate address, which is
/// not checked when the wallet is added.
#[derive(Clone, Debug)]
pub struct WalletInfo {
    pub name: String,
    pub address: String,
}

impl WalletInfo {
    pub fn new(name: String, address: String) -> (w: WalletInfo)
        ensures
            w.name == name,
            w.address == address,
    {
        WalletInfo { name, address }
    }
}

impl Default for WalletInfo {
    fn default() -> (w: WalletInfo)
        ensures
            w.name@ == Seq::<char>::empty(),
            w.address@ == Seq::<char>::empty(),
    {
        WalletInfo { name: String::new(), address: String::new() }
    }
}

/// The identity of a wallet's row in a balance matrix: `label:address`.
pub open spec fn wallet_key(w: WalletInfo) -> Seq<char> {
    w.name@ + seq![':'] + w.address@
}

/// Builds the row key `label:address` of a wallet.
pub fn wallet_key_of(w: &WalletInfo) -> (k: String)
    ensures
        k@ == wallet_key(*w),
{
    let mut k = w.name.clone();
    proof {
        reveal_strlit(":");
    }
    k.append(":");
    k.append(w.address.as_str());
    k
}

/// The list of chains and the fields of the chain being entered.
pub struct ChainSettingsWindow {
    pub is_open: bool,
    pub chain_settings: Vec<ChainSettings>,
    pub add_chain_settings: ChainSettings,
}

impl Default for ChainSettingsWindow {
    fn default() -> (w: ChainSettingsWindow)
        ensures
            !w.is_open,
            w.chain_settings@.len() == 0,
            w.add_chain_settings.chain_name@ == Seq::<char>::empty(),
            w.add_chain_settings.rpc_url@ == Seq::<char>::empty(),
    {
        ChainSettingsWindow {
            is_open: false,
            chain_settings: Vec::new(),
            add_chain_settings: ChainSettings::default(),
        }
    }
}

impl ChainSettingsWindow {
    /// Appends the chain being entered to the list and clears the fields.
    pub fn add_chain(&mut self)
        ensures
            final(self).chain_settings@ == old(self).chain_settings@.push(
                old(self).add_chain_settings,
            ),
            final(self).add_chain_settings.chain_name@ == Seq::<char>::empty(),
            final(self).add_chain_settings.rpc_url@ == Seq::<char>::empty(),
            final(self).is_open == old(self).is_open,
    {
        let mut entered = ChainSettings::default();
        std::mem::swap(&mut self.add_chain_settings, &mut entered);
        self.chain_settings.push(entered);
    }

    /// Removes the chain at `index`.
    pub fn remove_chain(&mut self, index: usize)
        requires
            index < old(self).chain_settings@.len(),
        ensures
            final(self).chain_settings@ == old(self).chain_settings@.remove(index as int),
            final(self).add_chain_settings == old(self).add_chain_settings,
            final(self).is_open == old(self).is_open,
    {
        self.chain_settings.remove(index);
    }
}

/// The list of wallets and the fields of the wallet being entered.
pub struct WalletSettingsWindow {
    pub is_open: bool,
    pub wallet_addresses: Vec<WalletInfo>,
    pub add_wallet_name: String,
    pub add_wallet_address: String,
}

impl Default for WalletSettingsWindow {
    fn default() -> (w: WalletSettingsWindow)
        ensures
            !w.is_open,
            w.wallet_addresses@.len() == 0,
            w.add_wallet_name@ == Seq::<char>::empty(),
            w.add_wallet_address@ == Seq::<char>::empty(),
    {
        WalletSettingsWindow {
            is_open: false,
            wallet_addresses: Vec::new(),
            add_wallet_name: String::new(),
            add_wallet_address: String::new(),
        }
    }
}

impl WalletSettingsWindow {
    /// Appends the wallet being entered to the list and clears the fields.
    pub fn add_wallet(&mut self)
        ensures
            final(self).wallet_addresses@.len() == old(self).wallet_addresses@.len() + 1,
            forall|i: int|
                0 <= i < old(self).wallet_addresses@.len() ==> final(self).wallet_addresses@[i]
                    == old(self).wallet_addresses@[i],
            final(self).wallet_addresses@.last().name == old(self).add_wallet_name,
            final(self).wallet_addresses@.last().address == old(self).add_wallet_address,
            final(self).add_wallet_name@ == Seq::<char>::empty(),
            final(self).add_wallet_address@ == Seq::<char>::empty(),
            final(self).is_open == old(self).is_open,
    {
        let mut name = String::new();
        std::mem::swap(&mut self.add_wallet_name, &mut name);
        let mut address = String::new();
        std::mem::swap(&mut self.add_wallet_address, &mut address);
        self.wallet_addresses.push(WalletInfo { name, address });
    }

    /// Removes the wallet at `index`.
    pub fn remove_wallet(&mut self, index: usize)
        requires
            index < old(self).wallet_addresses@.len(),
        ensures
            final(self).wallet_addresses@ == old(self).wallet_addresses@.remove(index as int),
            final(self).add_wallet_name == old(self).add_wallet_name,
            final(self).add_wallet_address == old(self).add_wallet_address,
            final(self).is_open == old(self).is_open,
    {
        self.wallet_addresses.remove(index);
    }
}

} // verus!
