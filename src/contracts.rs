//! Token contracts watched on a chain, and the `balanceOf` request of an
//! ERC-721 contract.

use crate::address::{address_digits, hex_bytes, is_address_text, parse_wallet_address, WalletAddress};
use crate::client::{url_parses, RpcBalanceClient};
use crate::codec::Wei;
use crate::settings::ChainSettings;
use vstd::prelude::*;

verus! {

/// An ERC-20 contract: a label and its address text.
#[derive(Clone, Debug)]
pub struct ERC20Contract {
    pub name: String,
    pub address: String,
}

impl Default for ERC20Contract {
    fn default() -> (c: ERC20Contract)
        ensures
            c.name@ == Seq::<char>::empty(),
            c.address@ == Seq::<char>::empty(),
    {
        ERC20Contract { name: String::new(), address: String::new() }
    }
}

/// An ERC-721 contract on one chain, and the owner whose token count is
/// asked for.
#[derive(Clone, Debug)]
pub struct ERC721Contract {
    pub name: String,
    pub address: String,
    pub chain_name: String,
    pub rpc_url: String,
    pub balance_of_target_address: String,
}

impl Default for ERC721Contract {
    fn default() -> (c: ERC721Contract)
        ensures
            c.name@ == Seq::<char>::empty(),
            c.address@ == Seq::<char>::empty(),
            c.chain_name@ == Seq::<char>::empty(),
            c.rpc_url@ == Seq::<char>::empty(),
            c.balance_of_target_address@ == Seq::<char>::empty(),
    {
        ERC721Contract {
            name: String::new(),
            address: String::new(),
            chain_name: String::new(),
            rpc_url: String::new(),
            balance_of_target_address: String::new(),
        }
    }
}

/// Why a `balanceOf` request could not be made.
#[derive(Clone, Copy, Debug, PartialEq, Eq)]
pub enum BalanceOfError {
    InvalidContractAddress,
    InvalidOwnerAddress,
    EndpointUnavailable,
}

/// A `balanceOf(owner)` call ready to send: where, to which contract, and
/// its ABI-encoded call data.
pub struct BalanceOfCall {
    pub client: RpcBalanceClient,
    pub contract: WalletAddress,
    pub call_data: Vec<u8>,
}

/// The selector of `balanceOf(address)`.
pub open spec fn balance_of_selector() -> Seq<u8> {
    seq![0x70u8, 0xa0u8, 0x82u8, 0x31u8]
}

/// The call data of `balanceOf(owner)`: the selector, then the owner's
/// address left-padded with zeros to a 32-byte word.
pub open spec fn balance_of_call_data(owner: Seq<u8>) -> Seq<u8> {
    balance_of_selector() + Seq::new(12, |i: int| 0u8) + owner
}

/// The call data of `balanceOf(owner)`.
pub fn encode_balance_of(owner: &WalletAddress) -> (data: Vec<u8>)
    ensures
        data@ == balance_of_call_data(owner.bytes@),
{
    let mut data: Vec<u8> = vec![0x70u8, 0xa0u8, 0x82u8, 0x31u8];
    let mut i: usize = 0;
    while i < 12
        invariant
            i <= 12,
            data@ == balance_of_selector() + Seq::new(i as nat, |j: int| 0u8),
        decreases 12 - i,
    {
        data.push(0u8);
        i = i + 1;
        assert(data@ =~= balance_of_selector() + Seq::new(i as nat, |j: int| 0u8));
    }
    let mut k: usize = 0;
    while k < 20
        invariant
            k <= 20,
            data@ == balance_of_selector() + Seq::new(12, |j: int| 0u8) + owner.bytes@.take(k as int),
        decreases 20 - k,
    {
        data.push(owner.bytes[k]);
        k = k + 1;
        assert(data@ =~= balance_of_selector() + Seq::new(12, |j: int| 0u8) + owner.bytes@.take(
            k as int,
        ));
    }
    assert(owner.bytes@.take(20) =~= owner.bytes@);
    data
}

/// The number that big-endian bytes denote.
pub open spec fn big_endian_value(bytes: Seq<u8>) -> nat
    decreases bytes.len(),
{
    if bytes.len() == 0 {
        0
    } else {
        big_endian_value(bytes.drop_last()) * 256 + bytes.last() as nat
    }
}

/// Relies on ethers' `U256::from_big_endian` (uint): it reads at most 32
/// big-endian bytes as a number, and panics on more.
#[verifier::external_body]
fn u256_from_big_endian(bytes: &[u8]) -> (w: Wei)
    requires
        bytes@.len() <= 32,
    ensures
        w.value() == big_endian_value(bytes@),
{
    Wei { limbs: ethers::types::U256::from_big_endian(bytes).0 }
}

/// The `uint256` that a call returned: the value of its 32-byte word, or
/// `None` where the answer is not one word.
pub fn decode_uint256(answer: &Vec<u8>) -> (r: Option<Wei>)
    ensures
        r.is_some() == (answer@.len() == 32),
        r matches Some(w) ==> w.value() == big_endian_value(answer@),
{
    if answer.len() != 32 {
        return None;
    }
    Some(u256_from_big_endian(answer.as_slice()))
}

impl ERC721Contract {
    /// The chain the contract lives on.
    pub fn chain(&self) -> (c: ChainSettings)
        ensures
            c.chain_name == self.chain_name,
            c.rpc_url == self.rpc_url,
    {
        ChainSettings { chain_name: self.chain_name.clone(), rpc_url: self.rpc_url.clone() }
    }

    /// Prepares the `balanceOf` call for the target owner: both addresses must
    /// be `0x` and forty hex digits, and the chain's endpoint must be set up.
    pub fn balance_of(&self) -> (r: Result<BalanceOfCall, BalanceOfError>)
        ensures
            !is_address_text(self.address@) ==> r == Err::<BalanceOfCall, BalanceOfError>(
                BalanceOfError::InvalidContractAddress,
            ),
            is_address_text(self.address@) && !is_address_text(self.balance_of_target_address@)
                ==> r == Err::<BalanceOfCall, BalanceOfError>(BalanceOfError::InvalidOwnerAddress),
            is_address_text(self.address@) && is_address_text(self.balance_of_target_address@) ==> (
            r is Err <==> !url_parses(self.rpc_url@)),
            r is Err ==> r->Err_0 == BalanceOfError::EndpointUnavailable || !is_address_text(
                self.address@,
            ) || !is_address_text(self.balance_of_target_address@),
            r matches Ok(call) ==> {
                &&& call.contract.bytes@ == hex_bytes(address_digits(self.address@))
                &&& call.call_data@ == balance_of_call_data(
                    hex_bytes(address_digits(self.balance_of_target_address@)),
                )
                &&& call.client.chain_name == self.chain_name
            },
    {
        let contract = match parse_wallet_address(self.address.as_str()) {
            Some(a) => a,
            None => return Err(BalanceOfError::InvalidContractAddress),
        };
        let owner = match parse_wallet_address(self.balance_of_target_address.as_str()) {
            Some(a) => a,
            None => return Err(BalanceOfError::InvalidOwnerAddress),
        };
        let client = match RpcBalanceClient::connect(&self.chain()) {
            Some(c) => c,
            None => return Err(BalanceOfError::EndpointUnavailable),
        };
        Ok(BalanceOfCall { client, contract, call_data: encode_balance_of(&owner) })
    }
}

/// The ERC-20 screen: the contract being entered, whether its address was
/// last rejected, and the contracts added so far.
pub struct ERC20ContractWindow {
    pub is_open: bool,
    pub contract_name: String,
    pub contract_address: String,
    pub selected_chain: String,
    pub selected: usize,
    pub address_rejected: bool,
    pub contracts: Vec<ERC20Contract>,
}

impl Default for ERC20ContractWindow {
    fn default() -> (w: ERC20ContractWindow)
        ensures
            !w.is_open,
            w.contract_name@ == Seq::<char>::empty(),
            w.contract_address@ == Seq::<char>::empty(),
            w.selected == 0,
            !w.address_rejected,
            w.contracts@.len() == 0,
    {
        ERC20ContractWindow {
            is_open: false,
            contract_name: String::new(),
            contract_address: String::new(),
            selected_chain: String::new(),
            selected: 0,
            address_rejected: false,
            contracts: Vec::new(),
        }
    }
}

impl ERC20ContractWindow {
    /// Adds the contract being entered if its address is `0x` and forty hex
    /// digits, and clears the fields; otherwise marks the address rejected
    /// and keeps everything else.
    pub fn add_contract(&mut self)
        ensures
            final(self).address_rejected == !is_address_text(old(self).contract_address@),
            !is_address_text(old(self).contract_address@) ==> {
                &&& final(self).contracts@ == old(self).contracts@
                &&& final(self).contract_name == old(self).contract_name
                &&& final(self).contract_address == old(self).contract_address
            },
            is_address_text(old(self).contract_address@) ==> {
                &&& final(self).contracts@.len() == old(self).contracts@.len() + 1
                &&& final(self).contracts@.drop_last() == old(self).contracts@
                &&& final(self).contracts@.last().name == old(self).contract_name
                &&& final(self).contracts@.last().address == old(self).contract_address
                &&& final(self).contract_name@ == Seq::<char>::empty()
                &&& final(self).contract_address@ == Seq::<char>::empty()
                &&& final(self).selected == 0
            },
            final(self).is_open == old(self).is_open,
    {
        if parse_wallet_address(self.contract_address.as_str()).is_none() {
            self.address_rejected = true;
            return;
        }
        self.address_rejected = false;
        let mut name = String::new();
        std::mem::swap(&mut self.contract_name, &mut name);
        let mut address = String::new();
        std::mem::swap(&mut self.contract_address, &mut address);
        self.contracts.push(ERC20Contract { name, address });
        self.selected = 0;
        assert(self.contracts@.drop_last() =~= old(self).contracts@);
    }

    /// Removes the contract at `index`.
    pub fn remove_contract(&mut self, index: usize)
        requires
            index < old(self).contracts@.len(),
        ensures
            final(self).contracts@ == old(self).contracts@.remove(index as int),
    {
        self.contracts.remove(index);
    }
}

/// The ERC-721 screen: the contract being entered, the chain selected for
/// it, whether its address was last rejected, and the contracts added.
pub struct ERC721ContractWindow {
    pub is_open: bool,
    pub contract_name: String,
    pub contract_address: String,
    pub selected_chain: String,
    pub selected: usize,
    pub address_rejected: bool,
    pub contracts: Vec<ERC721Contract>,
}

impl Default for ERC721ContractWindow {
    fn default() -> (w: ERC721ContractWindow)
        ensures
            !w.is_open,
            w.contract_name@ == Seq::<char>::empty(),
            w.contract_address@ == Seq::<char>::empty(),
            w.selected == 0,
            !w.address_rejected,
            w.contracts@.len() == 0,
    {
        ERC721ContractWindow {
            is_open: false,
            contract_name: String::new(),
            contract_address: String::new(),
            selected_chain: String::new(),
            selected: 0,
            address_rejected: false,
            contracts: Vec::new(),
        }
    }
}

impl ERC721ContractWindow {
    /// Adds the contract being entered, on the selected chain of `chains`,
    /// if its address is `0x` and forty hex digits, and clears the fields;
    /// otherwise marks the address rejected and keeps everything else.
    pub fn add_contract(&mut self, chains: &Vec<ChainSettings>)
        requires
            old(self).selected < chains@.len(),
        ensures
            final(self).address_rejected == !is_address_text(old(self).contract_address@),
            !is_address_text(old(self).contract_address@) ==> {
                &&& final(self).contracts@ == old(self).contracts@
                &&& final(self).contract_name == old(self).contract_name
                &&& final(self).contract_address == old(self).contract_address
            },
            is_address_text(old(self).contract_address@) ==> {
                let added = final(self).contracts@.last();
                let chain = chains@[old(self).selected as int];
                &&& final(self).contracts@.len() == old(self).contracts@.len() + 1
                &&& final(self).contracts@.drop_last() == old(self).contracts@
                &&& added.name == old(self).contract_name
                &&& added.address == old(self).contract_address
                &&& added.chain_name == chain.chain_name
                &&& added.rpc_url == chain.rpc_url
                &&& added.balance_of_target_address@ == Seq::<char>::empty()
                &&& final(self).contract_name@ == Seq::<char>::empty()
                &&& final(self).contract_address@ == Seq::<char>::empty()
                &&& final(self).selected == 0
            },
            final(self).is_open == old(self).is_open,
    {
        if parse_wallet_address(self.contract_address.as_str()).is_none() {
            self.address_rejected = true;
            return;
        }
        self.address_rejected = false;
        let mut name = String::new();
        std::mem::swap(&mut self.contract_name, &mut name);
        let mut address = String::new();
        std::mem::swap(&mut self.contract_address, &mut address);
        let chain = &chains[self.selected];
        self.contracts.push(
            ERC721Contract {
                name,
                address,
                chain_name: chain.chain_name.clone(),
                rpc_url: chain.rpc_url.clone(),
                balance_of_target_address: String::new(),
            },
        );
        self.selected = 0;
        assert(self.contracts@.drop_last() =~= old(self).contracts@);
    }

    /// Removes the contract at `index`.
    pub fn remove_contract(&mut self, index: usize)
        requires
            index < old(self).contracts@.len(),
        ensures
            final(self).contracts@ == old(self).contracts@.remove(index as int),
    {
        self.contracts.remove(index);
    }
}

} // verus!
