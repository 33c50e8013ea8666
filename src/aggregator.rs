//! Balance queries over every wallet and chain: what is resolved at once,
//! which requests to make, and the guarded recording of their answers.

use crate::address::{address_digits, hex_bytes, is_address_text, parse_wallet_address, WalletAddress};
use crate::client::{url_parses, BalanceCell, RpcBalanceClient};
use crate::settings::{wallet_key, wallet_key_of, ChainSettings, WalletInfo};
use vstd::prelude::*;

verus! {

/// Where an aggregation stands: nothing submitted yet, requests still
/// outstanding, or every cell resolved.
#[derive(Clone, Copy, Debug, PartialEq, Eq)]
pub enum TaskStatus {
    Pending,
    Running,
    Done,
}

/// One balance request to make: the wallet's row, the chain's column, the
/// generation of the aggregation that asked for it, and the parsed address.
#[derive(Clone, Copy, Debug, PartialEq, Eq)]
pub struct WorkUnit {
    pub generation: u64,
    pub row: usize,
    pub column: usize,
    pub address: WalletAddress,
}

/// The state of an aggregation as a mathematical value.
pub struct AggregationView {
    pub generation: u64,
    pub status: TaskStatus,
    pub row_keys: Seq<Seq<char>>,
    pub column_names: Seq<Seq<char>>,
    pub cells: Seq<Seq<Option<BalanceCell>>>,
    pub completed_cells: nat,
    pub total_cells: nat,
}

pub open spec fn string_views(s: Seq<String>) -> Seq<Seq<char>> {
    s.map_values(|x: String| x@)
}

pub open spec fn chain_names(chains: Seq<ChainSettings>) -> Seq<Seq<char>> {
    chains.map_values(|c: ChainSettings| c.chain_name@)
}

pub open spec fn wallet_keys(wallets: Seq<WalletInfo>) -> Seq<Seq<char>> {
    wallets.map_values(|w: WalletInfo| wallet_key(w))
}

/// No later entry has the same key as entry `i`.
pub open spec fn is_last(keys: Seq<Seq<char>>, i: int) -> bool {
    forall|j: int| i < j < keys.len() ==> keys[j] != keys[i]
}

/// The positions among the first `n` keys that hold the last occurrence of
/// their key, in increasing order.
pub open spec fn last_positions(keys: Seq<Seq<char>>, n: nat) -> Seq<int>
    decreases n,
{
    if n == 0 {
        Seq::empty()
    } else {
        let before = last_positions(keys, (n - 1) as nat);
        if is_last(keys, n - 1) {
            before.push(n - 1)
        } else {
            before
        }
    }
}

/// The entries kept when duplicate keys collapse to their last occurrence.
pub open spec fn kept(keys: Seq<Seq<char>>) -> Seq<int> {
    last_positions(keys, keys.len())
}

proof fn lemma_last_positions_bounds(keys: Seq<Seq<char>>, n: nat)
    requires
        n <= keys.len(),
    ensures
        last_positions(keys, n).len() <= n,
        forall|k: int|
            0 <= k < last_positions(keys, n).len() ==> 0 <= #[trigger] last_positions(keys, n)[k]
                < n,
    decreases n,
{
    if n > 0 {
        lemma_last_positions_bounds(keys, (n - 1) as nat);
    }
}

/// The positions of `keys` that keep their key, duplicates collapsing to the
/// last occurrence.
fn last_occurrences(keys: &Vec<String>) -> (r: Vec<usize>)
    ensures
        r@.map_values(|i: usize| i as int) == kept(string_views(keys@)),
{
    let ghost kv = string_views(keys@);
    let n = keys.len();
    let mut r: Vec<usize> = Vec::new();
    let mut i: usize = 0;
    while i < n
        invariant
            i <= n,
            n == keys@.len(),
            kv == string_views(keys@),
            r@.map_values(|i: usize| i as int) == last_positions(kv, i as nat),
        decreases n - i,
    {
        let mut last = true;
        let mut j: usize = i + 1;
        while j < n
            invariant
                i < j <= n,
                n == keys@.len(),
                kv == string_views(keys@),
                last == (forall|k: int| i < k < j ==> kv[k] != kv[i as int]),
            decreases n - j,
        {
            if keys[j] == keys[i] {
                last = false;
            }
            proof {
                assert(kv[j as int] == keys@[j as int]@);
                assert(kv[i as int] == keys@[i as int]@);
            }
            j = j + 1;
        }
        let ghost before = r@;
        if last {
            r.push(i);
            assert(r@.map_values(|i: usize| i as int) =~= before.map_values(|i: usize| i as int).push(
                i as int,
            ));
        }
        i = i + 1;
    }
    r
}

/// The cells of one row still waiting for an answer, as (row, column).
pub open spec fn row_pending(row: Seq<Option<BalanceCell>>, r: int) -> Seq<(int, int)>
    decreases row.len(),
{
    if row.len() == 0 {
        Seq::empty()
    } else {
        let before = row_pending(row.drop_last(), r);
        if row.last() is None {
            before.push((r, row.len() - 1))
        } else {
            before
        }
    }
}

/// The cells still waiting for an answer, row by row, as (row, column).
pub open spec fn pending_positions(cells: Seq<Seq<Option<BalanceCell>>>) -> Seq<(int, int)>
    decreases cells.len(),
{
    if cells.len() == 0 {
        Seq::empty()
    } else {
        pending_positions(cells.drop_last()) + row_pending(cells.last(), cells.len() - 1)
    }
}

/// What a cell holds before any request is answered: a chain whose endpoint
/// could not be set up resolves at once, then a malformed address does; any
/// other cell waits for its request.
pub open spec fn initial_cell(reachable: bool, address: Seq<char>) -> Option<BalanceCell> {
    if !reachable {
        Some(BalanceCell::EndpointUnavailable)
    } else if !is_address_text(address) {
        Some(BalanceCell::InvalidAddress)
    } else {
        None
    }
}

pub open spec fn initial_row(reachable: Seq<bool>, address: Seq<char>) -> Seq<Option<BalanceCell>> {
    Seq::new(reachable.len(), |c: int| initial_cell(reachable[c], address))
}

/// The cells of a new aggregation: one row per kept wallet, one column per
/// kept chain.
pub open spec fn initial_cells(wallets: Seq<WalletInfo>, rows: Seq<int>, reachable: Seq<bool>) -> Seq<
    Seq<Option<BalanceCell>>,
> {
    Seq::new(rows.len(), |r: int| initial_row(reachable, wallets[rows[r]].address@))
}

pub open spec fn status_for(generation: u64, completed: nat, total: nat) -> TaskStatus {
    if generation == 0 {
        TaskStatus::Pending
    } else if completed == total {
        TaskStatus::Done
    } else {
        TaskStatus::Running
    }
}

/// The aggregation of generation `generation` over `chains` and `wallets`
/// just after it is submitted, where `reachable[c]` tells whether the
/// endpoint of the `c`-th kept chain could be set up.
pub open spec fn scheduled(
    generation: u64,
    chains: Seq<ChainSettings>,
    wallets: Seq<WalletInfo>,
    reachable: Seq<bool>,
) -> AggregationView {
    let rows = kept(wallet_keys(wallets));
    let cols = kept(chain_names(chains));
    let cells = initial_cells(wallets, rows, reachable);
    let total = rows.len() * cols.len();
    let completed = (total - pending_positions(cells).len()) as nat;
    AggregationView {
        generation,
        status: status_for(generation, completed, total),
        row_keys: rows.map_values(|i: int| wallet_keys(wallets)[i]),
        column_names: cols.map_values(|i: int| chain_names(chains)[i]),
        cells,
        completed_cells: completed,
        total_cells: total,
    }
}

impl AggregationView {
    /// The shape and counters agree with the cells.
    pub open spec fn wf(&self) -> bool {
        &&& self.cells.len() == self.row_keys.len()
        &&& forall|r: int|
            0 <= r < self.cells.len() ==> (#[trigger] self.cells[r]).len()
                == self.column_names.len()
        &&& self.total_cells == self.row_keys.len() * self.column_names.len()
        &&& self.completed_cells + pending_positions(self.cells).len() == self.total_cells
        &&& self.status == status_for(self.generation, self.completed_cells, self.total_cells)
        &&& self.generation == 0 ==> self.total_cells == 0
    }

    /// A write for `unit` is taken: it belongs to this generation and its
    /// cell is in the matrix and still waiting.
    pub open spec fn accepts(&self, unit: WorkUnit) -> bool {
        &&& unit.generation == self.generation
        &&& unit.row < self.cells.len()
        &&& unit.column < self.column_names.len()
        &&& self.cells[unit.row as int][unit.column as int] is None
    }

    /// The state after the answer `cell` for `unit` arrives: stored and
    /// counted where it is accepted, dropped otherwise.
    pub open spec fn recorded(self, unit: WorkUnit, cell: BalanceCell) -> AggregationView {
        if self.accepts(unit) {
            let r = unit.row as int;
            let completed = self.completed_cells + 1;
            AggregationView {
                status: status_for(self.generation, completed, self.total_cells),
                cells: self.cells.update(r, self.cells[r].update(unit.column as int, Some(cell))),
                completed_cells: completed,
                ..self
            }
        } else {
            self
        }
    }
}

/// The state of the most recent aggregation: its generation, the row and
/// column headings and the cells resolved so far.
pub struct BalanceAggregator {
    generation: u64,
    status: TaskStatus,
    row_keys: Vec<String>,
    column_names: Vec<String>,
    cells: Vec<Vec<Option<BalanceCell>>>,
    completed_cells: usize,
    total_cells: usize,
}

pub open spec fn matrix_view(cells: Seq<Vec<Option<BalanceCell>>>) -> Seq<Seq<Option<BalanceCell>>> {
    cells.map_values(|row: Vec<Option<BalanceCell>>| row@)
}

impl View for BalanceAggregator {
    type V = AggregationView;

    closed spec fn view(&self) -> AggregationView {
        AggregationView {
            generation: self.generation,
            status: self.status,
            row_keys: string_views(self.row_keys@),
            column_names: string_views(self.column_names@),
            cells: matrix_view(self.cells@),
            completed_cells: self.completed_cells as nat,
            total_cells: self.total_cells as nat,
        }
    }
}

pub open spec fn unit_positions(units: Seq<WorkUnit>) -> Seq<(int, int)> {
    units.map_values(|u: WorkUnit| (u.row as int, u.column as int))
}

pub open spec fn positions_of(idx: Seq<usize>) -> Seq<int> {
    idx.map_values(|i: usize| i as int)
}

proof fn lemma_row_pending_len(row: Seq<Option<BalanceCell>>, r: int)
    ensures
        row_pending(row, r).len() <= row.len(),
    decreases row.len(),
{
    if row.len() > 0 {
        lemma_row_pending_len(row.drop_last(), r);
    }
}

proof fn lemma_pending_len(cells: Seq<Seq<Option<BalanceCell>>>, width: nat)
    requires
        forall|r: int| 0 <= r < cells.len() ==> (#[trigger] cells[r]).len() == width,
    ensures
        pending_positions(cells).len() <= cells.len() * width,
    decreases cells.len(),
{
    if cells.len() > 0 {
        let m = cells.drop_last();
        lemma_pending_len(m, width);
        lemma_row_pending_len(cells.last(), cells.len() - 1);
        assert(m.len() * width + width == cells.len() * width) by (nonlinear_arith)
            requires
                m.len() + 1 == cells.len(),
        ;
    }
}

proof fn lemma_pending_push(cells: Seq<Seq<Option<BalanceCell>>>, row: Seq<Option<BalanceCell>>)
    ensures
        pending_positions(cells.push(row)) == pending_positions(cells) + row_pending(
            row,
            cells.len() as int,
        ),
{
    assert(cells.push(row).drop_last() =~= cells);
}

proof fn lemma_row_pending_rows(row: Seq<Option<BalanceCell>>, r: int)
    ensures
        forall|k: int|
            0 <= k < row_pending(row, r).len() ==> (#[trigger] row_pending(row, r)[k]).0 == r
                && 0 <= row_pending(row, r)[k].1 < row.len() && row[row_pending(row, r)[k].1] is None,
    decreases row.len(),
{
    if row.len() > 0 {
        lemma_row_pending_rows(row.drop_last(), r);
    }
}

proof fn lemma_row_pending_fill(row: Seq<Option<BalanceCell>>, r: int, c: int, x: BalanceCell)
    requires
        0 <= c < row.len(),
        row[c] is None,
    ensures
        row_pending(row.update(c, Some(x)), r).len() + 1 == row_pending(row, r).len(),
    decreases row.len(),
{
    let filled = row.update(c, Some(x));
    if c == row.len() - 1 {
        assert(filled.drop_last() =~= row.drop_last());
    } else {
        lemma_row_pending_fill(row.drop_last(), r, c, x);
        assert(filled.drop_last() =~= row.drop_last().update(c, Some(x)));
    }
}

proof fn lemma_pending_fill(cells: Seq<Seq<Option<BalanceCell>>>, r: int, c: int, x: BalanceCell)
    requires
        0 <= r < cells.len(),
        0 <= c < cells[r].len(),
        cells[r][c] is None,
    ensures
        pending_positions(cells.update(r, cells[r].update(c, Some(x)))).len() + 1
            == pending_positions(cells).len(),
    decreases cells.len(),
{
    let filled = cells.update(r, cells[r].update(c, Some(x)));
    if r == cells.len() - 1 {
        assert(filled.drop_last() =~= cells.drop_last());
        lemma_row_pending_fill(cells[r], r, c, x);
    } else {
        lemma_pending_fill(cells.drop_last(), r, c, x);
        assert(filled.drop_last() =~= cells.drop_last().update(r, cells[r].update(c, Some(x))));
    }
}

/// A copy of a cell, equal to it.
fn copy_cell(cell: &Option<BalanceCell>) -> (r: Option<BalanceCell>)
    ensures
        r == *cell,
{
    match cell {
        None => None,
        Some(BalanceCell::Balance(t)) => Some(BalanceCell::Balance(t.clone())),
        Some(BalanceCell::InvalidAddress) => Some(BalanceCell::InvalidAddress),
        Some(BalanceCell::QueryFailed(t)) => Some(BalanceCell::QueryFailed(t.clone())),
        Some(BalanceCell::EndpointUnavailable) => Some(BalanceCell::EndpointUnavailable),
    }
}

fn copy_strings(v: &Vec<String>) -> (r: Vec<String>)
    ensures
        r@ == v@,
{
    let mut r: Vec<String> = Vec::new();
    let mut i: usize = 0;
    while i < v.len()
        invariant
            i <= v@.len(),
            r@ == v@.take(i as int),
        decreases v@.len() - i,
    {
        r.push(v[i].clone());
        i = i + 1;
        assert(r@ =~= v@.take(i as int));
    }
    assert(v@.take(i as int) =~= v@);
    r
}

fn copy_matrix(m: &Vec<Vec<Option<BalanceCell>>>) -> (r: Vec<Vec<Option<BalanceCell>>>)
    ensures
        matrix_view(r@) == matrix_view(m@),
{
    let mut r: Vec<Vec<Option<BalanceCell>>> = Vec::new();
    let mut i: usize = 0;
    while i < m.len()
        invariant
            i <= m@.len(),
            matrix_view(r@) == matrix_view(m@).take(i as int),
        decreases m@.len() - i,
    {
        let mut row: Vec<Option<BalanceCell>> = Vec::new();
        let mut j: usize = 0;
        while j < m[i].len()
            invariant
                i < m@.len(),
                j <= m@[i as int]@.len(),
                row@ == m@[i as int]@.take(j as int),
            decreases m@[i as int]@.len() - j,
        {
            row.push(copy_cell(&m[i][j]));
            j = j + 1;
            assert(row@ =~= m@[i as int]@.take(j as int));
        }
        assert(row@ =~= m@[i as int]@);
        let ghost before = r@;
        r.push(row);
        assert(r@.drop_last() == before);
        assert(matrix_view(r@) =~= matrix_view(before).push(matrix_view(m@)[i as int]));
        i = i + 1;
        assert(matrix_view(r@) =~= matrix_view(m@).take(i as int));
    }
    assert(matrix_view(m@).take(i as int) =~= matrix_view(m@));
    r
}

/// What a poll hands out: the state of the current aggregation at that
/// moment.
pub struct AggregationSnapshot {
    pub generation: u64,
    pub status: TaskStatus,
    pub row_keys: Vec<String>,
    pub column_names: Vec<String>,
    pub cells: Vec<Vec<Option<BalanceCell>>>,
    pub completed_cells: usize,
    pub total_cells: usize,
}

/// The names of `chains`, in order.
fn chain_name_list(chains: &Vec<ChainSettings>) -> (names: Vec<String>)
    ensures
        string_views(names@) == chain_names(chains@),
{
    let mut names: Vec<String> = Vec::new();
    let mut i: usize = 0;
    while i < chains.len()
        invariant
            i <= chains@.len(),
            names@.len() == i,
            forall|j: int| 0 <= j < i ==> (#[trigger] names@[j])@ == chains@[j].chain_name@,
        decreases chains@.len() - i,
    {
        names.push(chains[i].chain_name.clone());
        i = i + 1;
    }
    assert(string_views(names@) =~= chain_names(chains@));
    names
}

pub open spec fn reachability(clients: Seq<Option<RpcBalanceClient>>) -> Seq<bool> {
    clients.map_values(|o: Option<RpcBalanceClient>| o.is_some())
}

/// The keys at the positions `idx`, in that order.
fn headings(keys: &Vec<String>, idx: &Vec<usize>) -> (r: Vec<String>)
    requires
        forall|k: int| 0 <= k < idx@.len() ==> #[trigger] idx@[k] < keys@.len(),
    ensures
        r@.len() == idx@.len(),
        forall|k: int| 0 <= k < idx@.len() ==> (#[trigger] r@[k])@ == keys@[idx@[k] as int]@,
{
    let mut r: Vec<String> = Vec::new();
    let mut k: usize = 0;
    while k < idx.len()
        invariant
            k <= idx@.len(),
            r@.len() == k,
            forall|k: int| 0 <= k < idx@.len() ==> #[trigger] idx@[k] < keys@.len(),
            forall|j: int| 0 <= j < k ==> (#[trigger] r@[j])@ == keys@[idx@[j] as int]@,
        decreases idx@.len() - k,
    {
        r.push(keys[idx[k]].clone());
        k = k + 1;
    }
    r
}

/// The cells of one wallet's row before any answer arrives; a request is
/// added to `units` for each cell left waiting.
fn initial_row_cells(
    reachable: &Vec<bool>,
    wallet: &WalletInfo,
    row: usize,
    generation: u64,
    units: &mut Vec<WorkUnit>,
) -> (cells: Vec<Option<BalanceCell>>)
    ensures
        cells@ == initial_row(reachable@, wallet.address@),
        unit_positions(final(units)@) == unit_positions(old(units)@) + row_pending(
            cells@,
            row as int,
        ),
        forall|k: int|
            0 <= k < old(units)@.len() ==> #[trigger] final(units)@[k] == old(units)@[k],
        forall|k: int|
            old(units)@.len() <= k < final(units)@.len() ==> (#[trigger] final(units)@[k]).generation
                == generation && final(units)@[k].address.bytes@ == hex_bytes(
                address_digits(wallet.address@),
            ),
{
    let parsed = parse_wallet_address(wallet.address.as_str());
    let mut cells: Vec<Option<BalanceCell>> = Vec::new();
    let mut c: usize = 0;
    while c < reachable.len()
        invariant
            c <= reachable@.len(),
            parsed.is_some() == is_address_text(wallet.address@),
            parsed matches Some(a) ==> a.bytes@ == hex_bytes(address_digits(wallet.address@)),
            cells@ == initial_row(reachable@, wallet.address@).take(c as int),
            unit_positions(units@) == unit_positions(old(units)@) + row_pending(cells@, row as int),
            forall|k: int| 0 <= k < old(units)@.len() ==> #[trigger] units@[k] == old(units)@[k],
            forall|k: int|
                old(units)@.len() <= k < units@.len() ==> (#[trigger] units@[k]).generation
                    == generation && units@[k].address.bytes@ == hex_bytes(
                    address_digits(wallet.address@),
                ),
        decreases reachable@.len() - c,
    {
        let ghost before = cells@;
        let ghost units_before = units@;
        let cell = if !reachable[c] {
            Some(BalanceCell::EndpointUnavailable)
        } else {
            match parsed {
                None => Some(BalanceCell::InvalidAddress),
                Some(address) => {
                    units.push(WorkUnit { generation, row, column: c, address });
                    None
                },
            }
        };
        cells.push(cell);
        proof {
            assert(cells@.drop_last() =~= before);
            if cell is None {
                assert(row_pending(cells@, row as int) == row_pending(before, row as int).push(
                    (row as int, c as int),
                ));
                assert(unit_positions(units@) =~= unit_positions(units_before).push(
                    (row as int, c as int),
                ));
            } else {
                assert(row_pending(cells@, row as int) == row_pending(before, row as int));
                assert(units@ == units_before);
            }
            assert(unit_positions(units@) =~= unit_positions(old(units)@) + row_pending(
                cells@,
                row as int,
            ));
        }
        c = c + 1;
        assert(cells@ =~= initial_row(reachable@, wallet.address@).take(c as int));
    }
    assert(cells@ =~= initial_row(reachable@, wallet.address@));
    cells
}

impl BalanceAggregator {
    /// An aggregator to which nothing has been submitted.
    pub fn new() -> (a: BalanceAggregator)
        ensures
            a@.wf(),
            a@.generation == 0,
            a@.status == TaskStatus::Pending,
            a@.cells.len() == 0,
            a@.column_names.len() == 0,
    {
        let a = BalanceAggregator {
            generation: 0,
            status: TaskStatus::Pending,
            row_keys: Vec::new(),
            column_names: Vec::new(),
            cells: Vec::new(),
            completed_cells: 0,
            total_cells: 0,
        };
        assert(a@.cells =~= Seq::<Seq<Option<BalanceCell>>>::empty());
        assert(a@.row_keys =~= Seq::<Seq<char>>::empty());
        assert(a@.column_names =~= Seq::<Seq<char>>::empty());
        a
    }

    /// Starts a new aggregation over `chains` and `wallets`, superseding any
    /// earlier one, and returns the requests to make.  Chains with the same
    /// name, and wallets with the same `label:address`, collapse to their last
    /// occurrence; `reachable[c]` tells whether the endpoint of the `c`-th
    /// kept chain could be set up.
    pub fn schedule(
        &mut self,
        chains: &Vec<ChainSettings>,
        wallets: &Vec<WalletInfo>,
        reachable: &Vec<bool>,
    ) -> (units: Vec<WorkUnit>)
        requires
            old(self)@.generation < u64::MAX,
            reachable@.len() == kept(chain_names(chains@)).len(),
            wallets@.len() * chains@.len() <= usize::MAX,
        ensures
            final(self)@ == scheduled(
                (old(self)@.generation + 1) as u64,
                chains@,
                wallets@,
                reachable@,
            ),
            final(self)@.wf(),
            unit_positions(units@) == pending_positions(final(self)@.cells),
            forall|k: int|
                0 <= k < units@.len() ==> (#[trigger] units@[k]).generation == final(self)@.generation
                    && units@[k].address.bytes@ == hex_bytes(
                    address_digits(
                        wallets@[kept(wallet_keys(wallets@))[units@[k].row as int]].address@,
                    ),
                ),
    {
        let generation = self.generation + 1;
        let names = chain_name_list(chains);
        let mut keys: Vec<String> = Vec::new();
        let mut i: usize = 0;
        while i < wallets.len()
            invariant
                i <= wallets@.len(),
                keys@.len() == i,
                forall|j: int| 0 <= j < i ==> (#[trigger] keys@[j])@ == wallet_key(wallets@[j]),
            decreases wallets@.len() - i,
        {
            keys.push(wallet_key_of(&wallets[i]));
            i = i + 1;
        }
        assert(string_views(keys@) =~= wallet_keys(wallets@));
        let cols = last_occurrences(&names);
        let rows = last_occurrences(&keys);
        let ghost col_pos = kept(chain_names(chains@));
        let ghost row_pos = kept(wallet_keys(wallets@));
        proof {
            lemma_last_positions_bounds(chain_names(chains@), chains@.len());
            lemma_last_positions_bounds(wallet_keys(wallets@), wallets@.len());
            assert(forall|k: int| 0 <= k < cols@.len() ==> #[trigger] cols@[k] == col_pos[k]);
            assert(forall|k: int| 0 <= k < rows@.len() ==> #[trigger] rows@[k] == row_pos[k]);
        }
        let column_names = headings(&names, &cols);
        let row_keys = headings(&keys, &rows);
        let mut cells: Vec<Vec<Option<BalanceCell>>> = Vec::new();
        let mut units: Vec<WorkUnit> = Vec::new();
        let mut r: usize = 0;
        while r < rows.len()
            invariant
                r <= rows@.len(),
                rows@.len() == row_pos.len(),
                forall|k: int| 0 <= k < rows@.len() ==> #[trigger] rows@[k] == row_pos[k],
                forall|k: int| 0 <= k < row_pos.len() ==> 0 <= #[trigger] row_pos[k] < wallets@.len(),
                matrix_view(cells@) == initial_cells(wallets@, row_pos, reachable@).take(r as int),
                unit_positions(units@) == pending_positions(matrix_view(cells@)),
                forall|k: int|
                    0 <= k < units@.len() ==> (#[trigger] units@[k]).generation == generation
                        && units@[k].row < r && units@[k].address.bytes@ == hex_bytes(
                        address_digits(wallets@[row_pos[units@[k].row as int]].address@),
                    ),
            decreases rows@.len() - r,
        {
            let ghost before = matrix_view(cells@);
            let ghost units_before = units@;
            let row = initial_row_cells(reachable, &wallets[rows[r]], r, generation, &mut units);
            proof {
                lemma_pending_push(before, row@);
                let rp = row_pending(row@, r as int);
                assert forall|k: int| 0 <= k < rp.len() implies #[trigger] rp[k].0 == r by {
                    lemma_row_pending_rows(row@, r as int);
                }
                let before_pos = unit_positions(units_before);
                assert(unit_positions(units@).len() == units@.len());
                assert(before_pos.len() == units_before.len());
                assert forall|k: int| units_before.len() <= k < units@.len() implies (
                #[trigger] units@[k]).row == r by {
                    assert(unit_positions(units@)[k] == (units@[k].row as int, units@[k].column as int));
                    assert((before_pos + rp)[k] == rp[k - before_pos.len()]);
                    assert(rp[k - before_pos.len()].0 == r);
                }
            }
            cells.push(row);
            assert(matrix_view(cells@) =~= before.push(row@));
            r = r + 1;
            assert(matrix_view(cells@) =~= initial_cells(wallets@, row_pos, reachable@).take(
                r as int,
            ));
        }
        let ghost m = initial_cells(wallets@, row_pos, reachable@);
        assert(m.take(r as int) =~= m);
        proof {
            lemma_pending_len(m, cols@.len() as nat);
            assert(rows@.len() * cols@.len() <= wallets@.len() * chains@.len()) by (nonlinear_arith)
                requires
                    rows@.len() <= wallets@.len(),
                    cols@.len() <= chains@.len(),
            ;
        }
        let total = rows.len() * cols.len();
        let completed = total - units.len();
        self.generation = generation;
        self.status = if completed == total {
            TaskStatus::Done
        } else {
            TaskStatus::Running
        };
        self.row_keys = row_keys;
        self.column_names = column_names;
        self.cells = cells;
        self.completed_cells = completed;
        self.total_cells = total;
        assert(self@.row_keys =~= row_pos.map_values(|i: int| wallet_keys(wallets@)[i]));
        assert(self@.column_names =~= col_pos.map_values(|i: int| chain_names(chains@)[i]));
        units
    }

    /// Starts a new aggregation over `chains` and `wallets`: sets up the
    /// endpoint of each kept chain, then schedules as `schedule` does.
    /// Returns the endpoint of each column (`None` where it could not be set
    /// up) and the requests to make.
    pub fn submit(&mut self, chains: &Vec<ChainSettings>, wallets: &Vec<WalletInfo>) -> (r: (
        Vec<Option<RpcBalanceClient>>,
        Vec<WorkUnit>,
    ))
        requires
            old(self)@.generation < u64::MAX,
            wallets@.len() * chains@.len() <= usize::MAX,
        ensures
            r.0@.len() == kept(chain_names(chains@)).len(),
            forall|c: int|
                0 <= c < r.0@.len() ==> (#[trigger] r.0@[c]).is_some() == url_parses(
                    chains@[kept(chain_names(chains@))[c]].rpc_url@,
                ),
            forall|c: int|
                0 <= c < r.0@.len() ==> (#[trigger] r.0@[c] matches Some(client)
                    ==> client.chain_name == chains@[kept(chain_names(chains@))[c]].chain_name),
            final(self)@ == scheduled(
                (old(self)@.generation + 1) as u64,
                chains@,
                wallets@,
                reachability(r.0@),
            ),
            final(self)@.wf(),
            unit_positions(r.1@) == pending_positions(final(self)@.cells),
            forall|k: int|
                0 <= k < r.1@.len() ==> (#[trigger] r.1@[k]).generation == final(self)@.generation
                    && r.1@[k].address.bytes@ == hex_bytes(
                    address_digits(
                        wallets@[kept(wallet_keys(wallets@))[r.1@[k].row as int]].address@,
                    ),
                ),
    {
        let names = chain_name_list(chains);
        let cols = last_occurrences(&names);
        let ghost col_pos = kept(chain_names(chains@));
        proof {
            lemma_last_positions_bounds(chain_names(chains@), chains@.len());
            assert(forall|k: int| 0 <= k < cols@.len() ==> #[trigger] cols@[k] == col_pos[k]);
        }
        let mut clients: Vec<Option<RpcBalanceClient>> = Vec::new();
        let mut reachable: Vec<bool> = Vec::new();
        let mut c: usize = 0;
        while c < cols.len()
            invariant
                c <= cols@.len(),
                cols@.len() == col_pos.len(),
                forall|k: int| 0 <= k < cols@.len() ==> #[trigger] cols@[k] == col_pos[k],
                forall|k: int| 0 <= k < col_pos.len() ==> 0 <= #[trigger] col_pos[k] < chains@.len(),
                clients@.len() == c,
                reachable@ == reachability(clients@),
                forall|k: int|
                    0 <= k < c ==> (#[trigger] clients@[k]).is_some() == url_parses(
                        chains@[col_pos[k]].rpc_url@,
                    ),
                forall|k: int|
                    0 <= k < c ==> (#[trigger] clients@[k] matches Some(client)
                        ==> client.chain_name == chains@[col_pos[k]].chain_name),
            decreases cols@.len() - c,
        {
            let client = RpcBalanceClient::connect(&chains[cols[c]]);
            reachable.push(client.is_some());
            clients.push(client);
            c = c + 1;
            assert(reachable@ =~= reachability(clients@));
        }
        let units = self.schedule(chains, wallets, &reachable);
        (clients, units)
    }

    /// Stores the answer `cell` for `unit` if the write is accepted: it
    /// belongs to the current generation and its cell is still waiting.  A
    /// write from a superseded aggregation is dropped.
    pub fn record(&mut self, unit: &WorkUnit, cell: BalanceCell) -> (accepted: bool)
        requires
            old(self)@.wf(),
        ensures
            final(self)@ == old(self)@.recorded(*unit, cell),
            final(self)@.wf(),
            accepted == old(self)@.accepts(*unit),
    {
        if unit.generation != self.generation || unit.row >= self.cells.len() || unit.column
            >= self.column_names.len() {
            return false;
        }
        if self.cells[unit.row][unit.column].is_some() {
            return false;
        }
        let ghost before = self@;
        proof {
            lemma_pending_fill(before.cells, unit.row as int, unit.column as int, cell);
        }
        let mut row = self.cells.remove(unit.row);
        row.set(unit.column, Some(cell));
        self.cells.insert(unit.row, row);
        self.completed_cells = self.completed_cells + 1;
        self.status = if self.completed_cells == self.total_cells {
            TaskStatus::Done
        } else {
            TaskStatus::Running
        };
        assert(self@.cells =~= before.cells.update(
            unit.row as int,
            before.cells[unit.row as int].update(unit.column as int, Some(cell)),
        ));
        true
    }

    /// The generation of the current aggregation; zero before any.
    pub fn generation(&self) -> (g: u64)
        ensures
            g == self@.generation,
    {
        self.generation
    }

    /// The current aggregation as it stands, partial or complete.  Returns at
    /// once in every state.
    pub fn poll(&self) -> (snap: AggregationSnapshot)
        ensures
            snap.generation == self@.generation,
            snap.status == self@.status,
            string_views(snap.row_keys@) == self@.row_keys,
            string_views(snap.column_names@) == self@.column_names,
            matrix_view(snap.cells@) == self@.cells,
            snap.completed_cells == self@.completed_cells,
            snap.total_cells == self@.total_cells,
    {
        AggregationSnapshot {
            generation: self.generation,
            status: self.status,
            row_keys: copy_strings(&self.row_keys),
            column_names: copy_strings(&self.column_names),
            cells: copy_matrix(&self.cells),
            completed_cells: self.completed_cells,
            total_cells: self.total_cells,
        }
    }
}

/// The state after the answers `writes` arrive in that order.
pub open spec fn apply_writes(v: AggregationView, writes: Seq<(WorkUnit, BalanceCell)>) -> AggregationView
    decreases writes.len(),
{
    if writes.len() == 0 {
        v
    } else {
        apply_writes(v, writes.drop_last()).recorded(writes.last().0, writes.last().1)
    }
}

/// The answers among `writes` that belong to generation `generation`, in order.
pub open spec fn writes_of_generation(writes: Seq<(WorkUnit, BalanceCell)>, generation: u64) -> Seq<
    (WorkUnit, BalanceCell),
>
    decreases writes.len(),
{
    if writes.len() == 0 {
        Seq::empty()
    } else {
        let before = writes_of_generation(writes.drop_last(), generation);
        if writes.last().0.generation == generation {
            before.push(writes.last())
        } else {
            before
        }
    }
}

proof fn lemma_writes_keep_generation(v: AggregationView, writes: Seq<(WorkUnit, BalanceCell)>)
    ensures
        apply_writes(v, writes).generation == v.generation,
    decreases writes.len(),
{
    if writes.len() > 0 {
        lemma_writes_keep_generation(v, writes.drop_last());
    }
}

/// Answers from any other generation than the aggregation's own change
/// nothing: applying every answer gives the same state as applying only
/// those of the aggregation's generation.
pub proof fn lemma_other_generations_dropped(
    v: AggregationView,
    writes: Seq<(WorkUnit, BalanceCell)>,
)
    ensures
        apply_writes(v, writes) == apply_writes(v, writes_of_generation(writes, v.generation)),
    decreases writes.len(),
{
    if writes.len() > 0 {
        let w = writes.last();
        lemma_other_generations_dropped(v, writes.drop_last());
        lemma_writes_keep_generation(v, writes.drop_last());
        let kept_writes = writes_of_generation(writes.drop_last(), v.generation);
        if w.0.generation == v.generation {
            assert(writes_of_generation(writes, v.generation).drop_last() =~= kept_writes);
        }
    }
}

/// After a new submission, no answer to a request of an earlier submission
/// reaches the new aggregation: however such answers interleave, the state
/// stays as it was scheduled.
pub proof fn lemma_superseded_answers_dropped(
    previous_generation: u64,
    chains: Seq<ChainSettings>,
    wallets: Seq<WalletInfo>,
    reachable: Seq<bool>,
    writes: Seq<(WorkUnit, BalanceCell)>,
)
    requires
        previous_generation < u64::MAX,
        forall|k: int| 0 <= k < writes.len() ==> (#[trigger] writes[k]).0.generation <= previous_generation,
    ensures
        apply_writes(
            scheduled((previous_generation + 1) as u64, chains, wallets, reachable),
            writes,
        ) == scheduled((previous_generation + 1) as u64, chains, wallets, reachable),
    decreases writes.len(),
{
    let v = scheduled((previous_generation + 1) as u64, chains, wallets, reachable);
    if writes.len() > 0 {
        lemma_superseded_answers_dropped(
            previous_generation,
            chains,
            wallets,
            reachable,
            writes.drop_last(),
        );
        assert(writes.last() == writes[writes.len() - 1]);
    }
}

/// A chain whose endpoint could not be set up has `EndpointUnavailable` in
/// every row of its column, and no request is made for that column.
pub proof fn lemma_unreachable_column(
    generation: u64,
    chains: Seq<ChainSettings>,
    wallets: Seq<WalletInfo>,
    reachable: Seq<bool>,
    column: int,
)
    requires
        reachable.len() == kept(chain_names(chains)).len(),
        0 <= column < reachable.len(),
        !reachable[column],
    ensures
        ({
            let v = scheduled(generation, chains, wallets, reachable);
            &&& forall|r: int|
                0 <= r < v.cells.len() ==> #[trigger] v.cells[r][column] == Some(
                    BalanceCell::EndpointUnavailable,
                )
            &&& forall|k: int|
                0 <= k < pending_positions(v.cells).len() ==> (#[trigger] pending_positions(
                    v.cells,
                )[k]).1 != column
        }),
{
    let v = scheduled(generation, chains, wallets, reachable);
    lemma_pending_cells(v.cells);
}

/// A wallet whose address is not `0x` and forty hex digits has
/// `InvalidAddress` in every column whose endpoint could be set up, and no
/// request is made for its row.
pub proof fn lemma_invalid_address_row(
    generation: u64,
    chains: Seq<ChainSettings>,
    wallets: Seq<WalletInfo>,
    reachable: Seq<bool>,
    row: int,
)
    requires
        reachable.len() == kept(chain_names(chains)).len(),
        0 <= row < kept(wallet_keys(wallets)).len(),
        !is_address_text(wallets[kept(wallet_keys(wallets))[row]].address@),
    ensures
        ({
            let v = scheduled(generation, chains, wallets, reachable);
            &&& forall|c: int|
                0 <= c < reachable.len() && reachable[c] ==> #[trigger] v.cells[row][c] == Some(
                    BalanceCell::InvalidAddress,
                )
            &&& forall|k: int|
                0 <= k < pending_positions(v.cells).len() ==> (#[trigger] pending_positions(
                    v.cells,
                )[k]).0 != row
        }),
{
    let v = scheduled(generation, chains, wallets, reachable);
    lemma_pending_cells(v.cells);
}

/// Every waiting position is a cell of the matrix that holds `None`.
proof fn lemma_pending_cells(cells: Seq<Seq<Option<BalanceCell>>>)
    ensures
        forall|k: int|
            0 <= k < pending_positions(cells).len() ==> {
                let p = #[trigger] pending_positions(cells)[k];
                &&& 0 <= p.0 < cells.len()
                &&& 0 <= p.1 < cells[p.0].len()
                &&& cells[p.0][p.1] is None
            },
    decreases cells.len(),
{
    if cells.len() > 0 {
        let m = cells.drop_last();
        let last = cells.len() - 1;
        lemma_pending_cells(m);
        lemma_row_pending_rows(cells.last(), last);
        let a = pending_positions(m);
        let b = row_pending(cells.last(), last);
        assert forall|k: int| 0 <= k < pending_positions(cells).len() implies {
            let p = #[trigger] pending_positions(cells)[k];
            &&& 0 <= p.0 < cells.len()
            &&& 0 <= p.1 < cells[p.0].len()
            &&& cells[p.0][p.1] is None
        } by {
            if k < a.len() {
                assert(pending_positions(cells)[k] == a[k]);
                assert(cells[a[k].0] == m[a[k].0]);
            } else {
                assert(pending_positions(cells)[k] == b[k - a.len()]);
            }
        }
    }
}

/// A submitted aggregation is `Done` exactly when no cell is waiting for
/// an answer, and `Running` otherwise.
pub proof fn lemma_done_when_nothing_waits(v: AggregationView)
    requires
        v.wf(),
        v.generation > 0,
    ensures
        (v.status == TaskStatus::Done) == (pending_positions(v.cells).len() == 0),
        (v.status == TaskStatus::Running) == (pending_positions(v.cells).len() > 0),
{
}

proof fn lemma_row_all_pending(row: Seq<Option<BalanceCell>>, r: int)
    requires
        forall|c: int| 0 <= c < row.len() ==> #[trigger] row[c] is None,
    ensures
        row_pending(row, r).len() == row.len(),
    decreases row.len(),
{
    if row.len() > 0 {
        lemma_row_all_pending(row.drop_last(), r);
    }
}

proof fn lemma_all_pending(cells: Seq<Seq<Option<BalanceCell>>>, width: nat)
    requires
        forall|r: int| 0 <= r < cells.len() ==> (#[trigger] cells[r]).len() == width,
        forall|r: int, c: int| 0 <= r < cells.len() && 0 <= c < width ==> #[trigger] cells[r][c] is None,
    ensures
        pending_positions(cells).len() == cells.len() * width,
    decreases cells.len(),
{
    if cells.len() > 0 {
        let m = cells.drop_last();
        lemma_all_pending(m, width);
        let last = cells.last();
        assert forall|c: int| 0 <= c < last.len() implies #[trigger] last[c] is None by {
            assert(cells[cells.len() - 1][c] is None);
        }
        lemma_row_all_pending(last, cells.len() - 1);
        assert(m.len() * width + width == cells.len() * width) by (nonlinear_arith)
            requires
                m.len() + 1 == cells.len(),
        ;
    }
}

/// Where every endpoint could be set up and every kept wallet's address is
/// well-formed, each cell gets one request: as many requests wait as the
/// matrix has cells, and none is resolved yet.
pub proof fn lemma_every_cell_requested(
    generation: u64,
    chains: Seq<ChainSettings>,
    wallets: Seq<WalletInfo>,
    reachable: Seq<bool>,
)
    requires
        reachable.len() == kept(chain_names(chains)).len(),
        forall|c: int| 0 <= c < reachable.len() ==> #[trigger] reachable[c],
        forall|r: int|
            0 <= r < kept(wallet_keys(wallets)).len() ==> is_address_text(
                #[trigger] wallets[kept(wallet_keys(wallets))[r]].address@,
            ),
    ensures
        ({
            let v = scheduled(generation, chains, wallets, reachable);
            &&& pending_positions(v.cells).len() == v.total_cells
            &&& v.total_cells == kept(wallet_keys(wallets)).len() * kept(chain_names(chains)).len()
            &&& v.completed_cells == 0
        }),
{
    let v = scheduled(generation, chains, wallets, reachable);
    let rows = kept(wallet_keys(wallets));
    assert forall|r: int, c: int| 0 <= r < v.cells.len() && 0 <= c < reachable.len() implies #[trigger] v.cells[r][c] is None by {
        assert(is_address_text(wallets[rows[r]].address@));
    }
    lemma_all_pending(v.cells, reachable.len());
}

} // verus!
