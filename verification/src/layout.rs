//! What the web client shows: the grid of a ticket and the prizes still
//! open.

use vstd::prelude::*;

use crate::game::{PositionedNumber, Ticket};
use crate::store::{ClientWinning, ClientWinningView, client_winnings_view};

verus! {

/// The number of cells of a ticket's grid: three rows of nine columns.
pub const GRID_CELLS: u8 = 27;

/// `i` is the first cell of `ns` placed at row `row`, column `column`.
pub open spec fn is_first_at(ns: Seq<PositionedNumber>, row: u8, column: u8, i: int) -> bool {
    &&& 0 <= i < ns.len()
    &&& ns[i].row == row && ns[i].column == column
    &&& forall|j: int| 0 <= j < i ==> !(#[trigger] ns[j].row == row && ns[j].column == column)
}

/// What grid cell `k` shows: the first ticket cell placed there, if any.
pub open spec fn grid_cell(ns: Seq<PositionedNumber>, k: int) -> Option<PositionedNumber> {
    let row = (k / 9) as u8;
    let column = (k % 9) as u8;
    if exists|i: int| is_first_at(ns, row, column, i) {
        Some(ns[choose|i: int| is_first_at(ns, row, column, i)])
    } else {
        None
    }
}

/// The first ticket cell at a place of the grid, if any.
fn cell_at(ticket: &Ticket, row: u8, column: u8) -> (r: Option<PositionedNumber>)
    ensures
        r is Some <==> exists|i: int| is_first_at(ticket@, row, column, i),
        r matches Some(p) ==> exists|i: int| is_first_at(ticket@, row, column, i) && p == ticket@[i],
{
    let mut i: usize = 0;
    while i < ticket.numbers.len()
        invariant
            i <= ticket@.len(),
            forall|j: int| 0 <= j < i ==> !(#[trigger] ticket@[j].row == row && ticket@[j].column == column),
        decreases ticket@.len() - i,
    {
        let pn = ticket.numbers[i];
        if pn.row == row && pn.column == column {
            assert(is_first_at(ticket@, row, column, i as int));
            return Some(pn);
        }
        i = i + 1;
    }
    proof {
        assert forall|k: int| !is_first_at(ticket@, row, column, k) by {
            if is_first_at(ticket@, row, column, k) {
                assert(!(ticket@[k].row == row && ticket@[k].column == column));
            }
        }
    }
    None
}

/// The ticket's grid, row by row: for each of the 27 places, the cell
/// placed there, if any.
pub fn ticket_grid(ticket: &Ticket) -> (r: Vec<Option<PositionedNumber>>)
    ensures
        r@.len() == GRID_CELLS,
        forall|k: int| 0 <= k < GRID_CELLS ==> #[trigger] r@[k] == grid_cell(ticket@, k),
{
    let mut r: Vec<Option<PositionedNumber>> = Vec::new();
    let mut index: u8 = 0;
    while index < GRID_CELLS
        invariant
            index <= GRID_CELLS,
            r@.len() == index,
            forall|k: int| 0 <= k < index ==> #[trigger] r@[k] == grid_cell(ticket@, k),
        decreases GRID_CELLS - index,
    {
        let row = index / 9;
        let column = index % 9;
        let cell = cell_at(ticket, row, column);
        proof {
            let k = index as int;
            assert(row == (k / 9) as u8 && column == (k % 9) as u8);
            if cell is Some {
                let i = choose|i: int| is_first_at(ticket@, row, column, i) && cell->0 == ticket@[i];
                let c = choose|c: int| is_first_at(ticket@, row, column, c);
                if c < i {
                    assert(!(ticket@[c].row == row && ticket@[c].column == column));
                } else if i < c {
                    assert(!(ticket@[i].row == row && ticket@[i].column == column));
                }
            }
        }
        r.push(cell);
        index = index + 1;
    }
    r
}

/// A prize that nobody has won yet, as far as the client knows.
pub open spec fn is_open(w: ClientWinningView) -> bool {
    w.winner is None && w.winner_name is None
}

/// The prizes of the client's copy that nobody has won yet, in order.
pub fn active_winnings(ws: &Vec<ClientWinning>) -> (r: Vec<ClientWinning>)
    ensures
        client_winnings_view(r@) == client_winnings_view(ws@).filter(|w: ClientWinningView| is_open(w)),
{
    let ghost all = client_winnings_view(ws@);
    let mut r: Vec<ClientWinning> = Vec::new();
    let mut i: usize = 0;
    while i < ws.len()
        invariant
            i <= ws@.len(),
            all == client_winnings_view(ws@),
            client_winnings_view(r@) == all.take(i as int).filter(|w: ClientWinningView| is_open(w)),
        decreases ws@.len() - i,
    {
        let ghost before = client_winnings_view(r@);
        assert(all.take(i + 1).drop_last() =~= all.take(i as int));
        assert(all.take(i + 1).last() == all[i as int]);
        assert(all[i as int] == ws@[i as int]@);
        reveal_with_fuel(Seq::filter, 1);
        let w = &ws[i];
        if w.winner.is_none() && w.winner_name.is_none() {
            let copy = ClientWinning {
                name: w.name.clone(),
                verify_by: w.verify_by,
                winner: w.winner,
                winner_name: None,
            };
            r.push(copy);
            assert(client_winnings_view(r@) =~= before.push(all[i as int]));
        } else {
            assert(client_winnings_view(r@) =~= before);
        }
        i = i + 1;
    }
    assert(all.take(ws@.len() as int) =~= all);
    r
}

} // verus!
