use web3_toys::aggregator::{BalanceAggregator, TaskStatus, WorkUnit};
use web3_toys::client::{balance_cell, BalanceCell};
use web3_toys::codec::Wei;
use web3_toys::settings::{ChainSettings, WalletInfo};

const A1: &str = "0x1111111111111111111111111111111111111111";
const A2: &str = "0x2222222222222222222222222222222222222222";
const A3: &str = "0x3333333333333333333333333333333333333333";

fn chain(name: &str, url: &str) -> ChainSettings {
    ChainSettings::new(name.to_string(), url.to_string())
}

fn wallet(name: &str, address: &str) -> WalletInfo {
    WalletInfo::new(name.to_string(), address.to_string())
}

fn two_chains() -> Vec<ChainSettings> {
    vec![chain("eth", "http://localhost:8545"), chain("polygon", "http://localhost:8546")]
}

fn three_wallets() -> Vec<WalletInfo> {
    vec![wallet("a", A1), wallet("b", A2), wallet("c", A3)]
}

fn cell_at(a: &BalanceAggregator, row: usize, column: usize) -> Option<BalanceCell> {
    a.poll().cells[row][column].clone()
}

#[test]
fn two_chains_three_wallets_schedule_six_requests() {
    let mut a = BalanceAggregator::new();
    let units = a.schedule(&two_chains(), &three_wallets(), &vec![true, true]);
    assert_eq!(units.len(), 6);
    let snap = a.poll();
    assert_eq!(snap.total_cells, 6);
    assert_eq!(snap.completed_cells, 0);
    assert_eq!(snap.status, TaskStatus::Running);
    assert_eq!(snap.row_keys, vec![format!("a:{}", A1), format!("b:{}", A2), format!("c:{}", A3)]);
    assert_eq!(snap.column_names, vec!["eth".to_string(), "polygon".to_string()]);
    let positions: Vec<(usize, usize)> = units.iter().map(|u| (u.row, u.column)).collect();
    assert_eq!(positions, vec![(0, 0), (0, 1), (1, 0), (1, 1), (2, 0), (2, 1)]);
    assert!(units.iter().all(|u| u.generation == 1));
}

#[test]
fn submit_connects_each_chain() {
    let mut a = BalanceAggregator::new();
    let (clients, units) = a.submit(&two_chains(), &three_wallets());
    assert_eq!(clients.len(), 2);
    assert!(clients.iter().all(|c| c.is_some()));
    assert_eq!(clients[1].as_ref().unwrap().chain_name, "polygon");
    assert_eq!(units.len(), 6);
    assert_eq!(a.poll().total_cells, 6);
}

#[test]
fn unreachable_endpoint_resolves_its_column() {
    let mut a = BalanceAggregator::new();
    let units = a.schedule(&two_chains(), &three_wallets(), &vec![true, false]);
    assert_eq!(units.len(), 3);
    assert!(units.iter().all(|u| u.column == 0));
    for r in 0..3 {
        assert_eq!(cell_at(&a, r, 1), Some(BalanceCell::EndpointUnavailable));
        assert_eq!(cell_at(&a, r, 0), None);
    }
    assert_eq!(a.poll().completed_cells, 3);
    assert_eq!(a.poll().status, TaskStatus::Running);
    for (k, u) in units.iter().enumerate() {
        assert!(a.record(u, BalanceCell::Balance(format!("{}", k))));
        let expected = if k == 2 { TaskStatus::Done } else { TaskStatus::Running };
        assert_eq!(a.poll().status, expected);
    }
    assert_eq!(a.poll().completed_cells, 6);
    assert_eq!(cell_at(&a, 1, 0), Some(BalanceCell::Balance("1".to_string())));
}

#[test]
fn malformed_url_makes_endpoint_unavailable() {
    let mut a = BalanceAggregator::new();
    let chains = vec![chain("eth", "http://localhost:8545"), chain("bad", "not a url")];
    let (clients, units) = a.submit(&chains, &three_wallets());
    assert!(clients[0].is_some());
    assert!(clients[1].is_none());
    assert_eq!(units.len(), 3);
    assert_eq!(cell_at(&a, 2, 1), Some(BalanceCell::EndpointUnavailable));
}

#[test]
fn invalid_address_resolves_its_row() {
    let mut a = BalanceAggregator::new();
    let wallets = vec![wallet("a", A1), wallet("typo", "0x12345"), wallet("c", A3)];
    let units = a.schedule(&two_chains(), &wallets, &vec![true, true]);
    assert_eq!(units.len(), 4);
    assert!(units.iter().all(|u| u.row != 1));
    assert_eq!(cell_at(&a, 1, 0), Some(BalanceCell::InvalidAddress));
    assert_eq!(cell_at(&a, 1, 1), Some(BalanceCell::InvalidAddress));
    assert_eq!(a.poll().completed_cells, 2);
}

#[test]
fn stale_answers_are_dropped_after_a_new_submission() {
    let mut a = BalanceAggregator::new();
    let first = a.schedule(&two_chains(), &three_wallets(), &vec![true, true]);
    assert_eq!(a.poll().status, TaskStatus::Running);
    let second = a.schedule(&two_chains(), &three_wallets(), &vec![true, true]);
    assert_eq!(a.poll().generation, 2);
    for u in &first {
        assert!(!a.record(u, BalanceCell::Balance("999".to_string())));
    }
    let snap = a.poll();
    assert_eq!(snap.completed_cells, 0);
    assert!(snap.cells.iter().all(|row| row.iter().all(|c| c.is_none())));
    for u in &second {
        assert!(a.record(u, BalanceCell::Balance("1".to_string())));
    }
    assert_eq!(a.poll().status, TaskStatus::Done);
    assert!(a.poll().cells.iter().all(|row| row
        .iter()
        .all(|c| *c == Some(BalanceCell::Balance("1".to_string())))));
}

#[test]
fn duplicate_answer_is_not_counted_twice() {
    let mut a = BalanceAggregator::new();
    let units = a.schedule(&two_chains(), &three_wallets(), &vec![true, true]);
    assert!(a.record(&units[0], BalanceCell::QueryFailed("timeout".to_string())));
    assert!(!a.record(&units[0], BalanceCell::Balance("1".to_string())));
    assert_eq!(a.poll().completed_cells, 1);
    assert_eq!(cell_at(&a, 0, 0), Some(BalanceCell::QueryFailed("timeout".to_string())));
    let outside = WorkUnit { row: 7, ..units[0] };
    assert!(!a.record(&outside, BalanceCell::Balance("1".to_string())));
}

#[test]
fn poll_answers_in_every_state() {
    let mut a = BalanceAggregator::new();
    let snap = a.poll();
    assert_eq!(snap.status, TaskStatus::Pending);
    assert_eq!(snap.total_cells, 0);
    let units = a.schedule(&two_chains(), &three_wallets(), &vec![true, true]);
    assert_eq!(a.poll().status, TaskStatus::Running);
    for u in &units {
        a.record(u, BalanceCell::Balance("0".to_string()));
        let snap = a.poll();
        assert!(snap.completed_cells <= snap.total_cells);
    }
    assert_eq!(a.poll().status, TaskStatus::Done);
}

#[test]
fn empty_submission_is_done_at_once() {
    let mut a = BalanceAggregator::new();
    let units = a.schedule(&vec![], &three_wallets(), &vec![]);
    assert!(units.is_empty());
    assert_eq!(a.poll().status, TaskStatus::Done);
    assert_eq!(a.poll().row_keys.len(), 3);
}

#[test]
fn duplicates_collapse_to_last_occurrence() {
    let mut a = BalanceAggregator::new();
    let chains = vec![
        chain("eth", "http://old:1"),
        chain("polygon", "http://localhost:8546"),
        chain("eth", "http://new:2"),
    ];
    let wallets = vec![wallet("a", A1), wallet("b", A2), wallet("a", A1), wallet("a", A2)];
    let (clients, units) = a.submit(&chains, &wallets);
    let snap = a.poll();
    assert_eq!(snap.column_names, vec!["polygon".to_string(), "eth".to_string()]);
    assert_eq!(snap.row_keys, vec![format!("b:{}", A2), format!("a:{}", A1), format!("a:{}", A2)]);
    assert_eq!(clients.len(), 2);
    assert_eq!(clients[1].as_ref().unwrap().chain_name, "eth");
    assert_eq!(
        clients[1].as_ref().unwrap().provider.url().as_str(),
        "http://new:2/"
    );
    assert_eq!(units.len(), 6);
    assert_eq!(snap.total_cells, 6);
}

#[test]
fn answer_outcomes_become_cells() {
    let ok = balance_cell(Ok(Wei::from_u64(1500000000000000000)));
    assert_eq!(ok, BalanceCell::Balance("1.5".to_string()));
    let zero = balance_cell(Ok(Wei::from_u64(0)));
    assert_eq!(zero, BalanceCell::Balance("0".to_string()));
    let failed = balance_cell(Err("connection refused".to_string()));
    assert_eq!(failed, BalanceCell::QueryFailed("connection refused".to_string()));
    assert_ne!(zero, BalanceCell::QueryFailed("0".to_string()));
}

#[test]
fn work_units_carry_parsed_addresses() {
    let mut a = BalanceAggregator::new();
    let units = a.schedule(&two_chains(), &three_wallets(), &vec![true, true]);
    assert_eq!(units[2].address.bytes, [0x22u8; 20]);
    assert_eq!(units[5].address.bytes, [0x33u8; 20]);
}
