use web3_toys::backend::{AppState, MovieState};
use web3_toys::contracts::{
    decode_uint256, encode_balance_of, BalanceOfError, ERC20Contract, ERC20ContractWindow, ERC721Contract,
    ERC721ContractWindow,
};
use web3_toys::address::parse_wallet_address;
use web3_toys::settings::{wallet_key_of, ChainSettings, ChainSettingsWindow, WalletInfo, WalletSettingsWindow};
use web3_toys::wallet_balance::WalletBalanceWindow;
use web3_toys::codec::format_balance;

#[test]
fn wallet_key_joins_label_and_address() {
    let w = WalletInfo::new("main".to_string(), "0xabc".to_string());
    assert_eq!(wallet_key_of(&w), "main:0xabc");
    assert_eq!(wallet_key_of(&WalletInfo::default()), ":");
}

#[test]
fn adding_and_removing_wallets() {
    let mut s = WalletSettingsWindow::default();
    s.add_wallet_name = "main".to_string();
    s.add_wallet_address = "0x1".to_string();
    s.add_wallet();
    assert_eq!(s.wallet_addresses.len(), 1);
    assert_eq!(s.wallet_addresses[0].name, "main");
    assert_eq!(s.wallet_addresses[0].address, "0x1");
    assert!(s.add_wallet_name.is_empty() && s.add_wallet_address.is_empty());
    s.add_wallet();
    s.remove_wallet(0);
    assert_eq!(s.wallet_addresses.len(), 1);
    assert_eq!(s.wallet_addresses[0].name, "");
}

#[test]
fn adding_and_removing_chains() {
    let mut s = ChainSettingsWindow::default();
    s.add_chain_settings.chain_name = "eth".to_string();
    s.add_chain_settings.rpc_url = "http://localhost:8545".to_string();
    s.add_chain();
    assert_eq!(s.chain_settings.len(), 1);
    assert_eq!(s.chain_settings[0].rpc_url, "http://localhost:8545");
    assert!(s.add_chain_settings.chain_name.is_empty());
    s.remove_chain(0);
    assert!(s.chain_settings.is_empty());
}

#[test]
fn service_state_hands_out_movie_state() {
    let s = AppState::new();
    assert_eq!(MovieState::from_ref(&s), MovieState {});
}

#[test]
fn balance_of_call_data() {
    let owner = parse_wallet_address("0x00000000000000000000000000000000000000ff").unwrap();
    let data = encode_balance_of(&owner);
    assert_eq!(data.len(), 36);
    assert_eq!(&data[..4], &[0x70, 0xa0, 0x82, 0x31]);
    assert!(data[4..35].iter().all(|b| *b == 0));
    assert_eq!(data[35], 0xff);
}

#[test]
fn uint256_answer_decodes() {
    let mut word = vec![0u8; 32];
    word[31] = 5;
    word[30] = 1;
    let w = decode_uint256(&word).unwrap();
    assert_eq!(format_balance(&w, 0), "261");
    assert!(decode_uint256(&vec![0u8; 31]).is_none());
    let mut high = vec![0u8; 32];
    high[0] = 1;
    assert_eq!(decode_uint256(&high).unwrap().limbs, [0, 0, 0, 1u64 << 56]);
}

#[test]
fn balance_of_checks_its_inputs() {
    let mut c = ERC721Contract::default();
    c.rpc_url = "http://localhost:8545".to_string();
    assert_eq!(c.balance_of().err(), Some(BalanceOfError::InvalidContractAddress));
    c.address = "0x1111111111111111111111111111111111111111".to_string();
    assert_eq!(c.balance_of().err(), Some(BalanceOfError::InvalidOwnerAddress));
    c.balance_of_target_address = "0x2222222222222222222222222222222222222222".to_string();
    let call = c.balance_of().ok().unwrap();
    assert_eq!(call.contract.bytes, [0x11u8; 20]);
    assert_eq!(call.call_data[4 + 12], 0x22);
    c.rpc_url = "::".to_string();
    assert_eq!(c.balance_of().err(), Some(BalanceOfError::EndpointUnavailable));
    let e = ERC20Contract::default();
    assert!(e.name.is_empty() && e.address.is_empty());
}

#[test]
fn balance_window_starts_a_query() {
    let mut w = WalletBalanceWindow::default();
    let chains = vec![ChainSettings::new(
        "eth".to_string(),
        "http://localhost:8545".to_string(),
    )];
    let wallets = vec![WalletInfo::new(
        "a".to_string(),
        "0x1111111111111111111111111111111111111111".to_string(),
    )];
    let (clients, units) = w.get_balance(chains, wallets);
    assert_eq!(clients.len(), 1);
    assert_eq!(units.len(), 1);
    assert_eq!(w.balances.generation(), 1);
    assert_eq!(w.balances.poll().total_cells, 1);
}

#[test]
fn erc20_window_rejects_bad_address() {
    let mut w = ERC20ContractWindow::default();
    w.contract_name = "USDT".to_string();
    w.contract_address = "0xnope".to_string();
    w.add_contract();
    assert!(w.address_rejected);
    assert!(w.contracts.is_empty());
    assert_eq!(w.contract_name, "USDT");
    w.contract_address = "0xdAC17F958D2ee523a2206206994597C13D831ec7".to_string();
    w.add_contract();
    assert!(!w.address_rejected);
    assert_eq!(w.contracts.len(), 1);
    assert_eq!(w.contracts[0].name, "USDT");
    assert!(w.contract_name.is_empty() && w.contract_address.is_empty());
    w.remove_contract(0);
    assert!(w.contracts.is_empty());
}

#[test]
fn erc721_window_adds_on_selected_chain() {
    let chains = vec![
        ChainSettings::new("eth".to_string(), "http://a".to_string()),
        ChainSettings::new("polygon".to_string(), "http://b".to_string()),
    ];
    let mut w = ERC721ContractWindow::default();
    w.contract_name = "Toys".to_string();
    w.contract_address = "0x1111111111111111111111111111111111111111".to_string();
    w.selected = 1;
    w.add_contract(&chains);
    assert_eq!(w.contracts.len(), 1);
    assert_eq!(w.contracts[0].chain_name, "polygon");
    assert_eq!(w.contracts[0].rpc_url, "http://b");
    assert_eq!(w.selected, 0);
    w.contract_address = "1111111111111111111111111111111111111111".to_string();
    w.add_contract(&chains);
    assert!(w.address_rejected);
    assert_eq!(w.contracts.len(), 1);
}
