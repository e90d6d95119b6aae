//! Random choices of the game: drawing from a list, picking distinct
//! numbers, and laying out a fresh ticket.

use vstd::prelude::*;
use rand::distributions::Distribution;
use rand::Rng;

use crate::game::{PositionedNumber, contains_u8, strictly_increasing};

verus! {

/// A number drawn from `low` (inclusive) to `high` (exclusive) by the
/// thread-local generator of `rand` (`Rng::gen_range`).
///
/// `gen_range` panics when `low >= high`, hence the `requires`; it
/// returns a value in the half-open range. Which value comes out rests on
/// chance, so nothing more is promised.
#[verifier::external_body]
pub fn get_random_number_between_wasm(low: usize, high: usize) -> (r: usize)
    requires
        low < high,
    ensures
        low <= r < high,
{
    let mut rng = rand::thread_rng();
    rng.gen_range(low, high)
}

/// An index drawn uniformly below `len` by `rand`'s `Uniform` distribution
/// over `0..len`, sampled with the thread-local generator.
///
/// `Uniform::from` panics on an empty range, hence the `requires`; the
/// sample lies in the range. Which index comes out rests on chance.
#[verifier::external_body]
fn uniform_index_below(len: usize) -> (r: usize)
    requires
        0 < len,
    ensures
        r < len,
{
    let die = rand::distributions::Uniform::from(0..len);
    let mut rng = rand::thread_rng();
    die.sample(&mut rng)
}

/// One element of `numbers`, chosen uniformly at random; `None` when the
/// list is empty.
pub fn one_uniform_random_from(numbers: Vec<usize>) -> (r: Option<usize>)
    ensures
        r is None <==> numbers@.len() == 0,
        r matches Some(x) ==> numbers@.contains(x),
{
    if numbers.len() > 0 {
        let index = uniform_index_below(numbers.len());
        let number = numbers[index];
        assert(numbers@[index as int] == number);
        Some(number)
    } else {
        None
    }
}

/// The number of times `x` occurs in `s`.
pub open spec fn count_eq(s: Seq<u8>, x: u8) -> nat
    decreases s.len(),
{
    if s.len() == 0 {
        0
    } else {
        count_eq(s.drop_last(), x) + if s.last() == x {
            1nat
        } else {
            0nat
        }
    }
}

/// The number of elements of `s` below `c`.
pub open spec fn count_below(s: Seq<u8>, c: int) -> nat
    decreases s.len(),
{
    if s.len() == 0 {
        0
    } else {
        count_below(s.drop_last(), c) + if s.last() < c {
            1nat
        } else {
            0nat
        }
    }
}

/// The number of cells of the ticket that lie in row `r`.
pub open spec fn row_count(s: Seq<PositionedNumber>, r: u8) -> nat
    decreases s.len(),
{
    if s.len() == 0 {
        0
    } else {
        row_count(s.drop_last(), r) + if s.last().row == r {
            1nat
        } else {
            0nat
        }
    }
}

/// The smallest number column `c` may hold: column 0 holds 1 to 9, and
/// column `c > 0` holds `10 * c` to `10 * c + 9`.
pub open spec fn column_low(c: u8) -> int {
    if c == 0 {
        1
    } else {
        10 * c
    }
}

/// A cell of a fresh ticket: in one of the three rows and the nine
/// columns, unclaimed, and holding a number of its column's decade.
pub open spec fn valid_cell(p: PositionedNumber) -> bool {
    &&& p.row < 3
    &&& p.column < 9
    &&& !p.claimed
    &&& column_low(p.column) <= p.number < 10 * p.column + 10
}

/// Cell `a` comes before cell `b`: in an earlier column, or in the same
/// column in an earlier row with a smaller number.
pub open spec fn cell_before(a: PositionedNumber, b: PositionedNumber) -> bool {
    ||| a.column < b.column
    ||| (a.column == b.column && a.row < b.row && a.number < b.number)
}

/// A well-formed fresh ticket: fifteen valid cells, five in each of the
/// three rows, listed column by column and row by row, numbers growing
/// down each column.
pub open spec fn valid_ticket(s: Seq<PositionedNumber>) -> bool {
    &&& s.len() == 15
    &&& forall|i: int| 0 <= i < s.len() ==> valid_cell(#[trigger] s[i])
    &&& forall|i: int, j: int| 0 <= i < j < s.len() ==> cell_before(#[trigger] s[i], #[trigger] s[j])
    &&& forall|r: u8| r < 3 ==> #[trigger] row_count(s, r) == 5
}

proof fn lemma_count_below_all(s: Seq<u8>, c: int)
    requires
        forall|i: int| 0 <= i < s.len() ==> s[i] < c,
    ensures
        count_below(s, c) == s.len(),
    decreases s.len(),
{
    if s.len() > 0 {
        lemma_count_below_all(s.drop_last(), c);
    }
}

proof fn lemma_count_below_zero(s: Seq<u8>)
    ensures
        count_below(s, 0) == 0,
    decreases s.len(),
{
    if s.len() > 0 {
        lemma_count_below_zero(s.drop_last());
    }
}

proof fn lemma_count_below_step(s: Seq<u8>, c: u8)
    ensures
        count_below(s, c as int + 1) == count_below(s, c as int) + count_eq(s, c),
    decreases s.len(),
{
    if s.len() > 0 {
        lemma_count_below_step(s.drop_last(), c);
    }
}

proof fn lemma_count_eq_no_dup(s: Seq<u8>, x: u8)
    requires
        s.no_duplicates(),
    ensures
        count_eq(s, x) == if s.contains(x) {
            1nat
        } else {
            0nat
        },
    decreases s.len(),
{
    if s.len() > 0 {
        let t = s.drop_last();
        assert(t.no_duplicates());
        lemma_count_eq_no_dup(t, x);
        if s.last() == x {
            if t.contains(x) {
                let j = choose|j: int| 0 <= j < t.len() && t[j] == x;
                assert(s[j] == s[s.len() - 1]);
            }
        } else {
            if s.contains(x) {
                let j = choose|j: int| 0 <= j < s.len() && s[j] == x;
                assert(t[j] == x);
            }
            if t.contains(x) {
                let j = choose|j: int| 0 <= j < t.len() && t[j] == x;
                assert(s[j] == x);
            }
        }
    }
}

proof fn lemma_increasing_no_dup(s: Seq<u8>)
    requires
        strictly_increasing(s),
    ensures
        s.no_duplicates(),
{
    assert forall|i: int, j: int| 0 <= i < s.len() && 0 <= j < s.len() && i != j implies s[i]
        != s[j] by {
        if i < j {
            assert(s[i] < s[j]);
        } else {
            assert(s[j] < s[i]);
        }
    }
}

proof fn lemma_len_is_row_sum(s: Seq<PositionedNumber>)
    requires
        forall|i: int| 0 <= i < s.len() ==> #[trigger] s[i].row < 3,
    ensures
        s.len() == row_count(s, 0) + row_count(s, 1) + row_count(s, 2),
    decreases s.len(),
{
    if s.len() > 0 {
        let t = s.drop_last();
        assert forall|i: int| 0 <= i < t.len() implies #[trigger] t[i].row < 3 by {
            assert(t[i] == s[i]);
        }
        lemma_len_is_row_sum(t);
        assert(s[s.len() - 1].row < 3);
    }
}

/// The numbers kept when the range is walked upwards from `v` to `high`
/// with `needed` numbers still wanted: `v` is kept when the first draw is
/// below the count still wanted, and each later draw decides the next
/// number.
pub open spec fn selection(picks: Seq<usize>, needed: int, v: int, high: int) -> Seq<u8>
    decreases high - v,
{
    if v >= high || needed <= 0 {
        Seq::empty()
    } else if (picks[0] as int) < needed {
        seq![v as u8] + selection(picks.drop_first(), needed - 1, v + 1, high)
    } else {
        selection(picks.drop_first(), needed, v + 1, high)
    }
}

/// The draws for a walk from `v` to `high`: one per number, the draw for
/// number `v + k` below the `high - v - k` numbers left at that point.
pub open spec fn valid_picks(picks: Seq<usize>, v: int, high: int) -> bool {
    &&& picks.len() == high - v
    &&& forall|k: int| 0 <= k < picks.len() ==> (#[trigger] picks[k] as int) < high - v - k
}

proof fn lemma_selection(picks: Seq<usize>, needed: int, v: int, high: int)
    requires
        0 <= v <= high <= 256,
        0 <= needed <= high - v,
        valid_picks(picks, v, high),
    ensures
        selection(picks, needed, v, high).len() == needed,
        strictly_increasing(selection(picks, needed, v, high)),
        forall|i: int|
            0 <= i < selection(picks, needed, v, high).len() ==> v <= #[trigger] selection(
                picks,
                needed,
                v,
                high,
            )[i] < high,
    decreases high - v,
{
    if v < high && needed > 0 {
        let rest = picks.drop_first();
        assert(valid_picks(rest, v + 1, high)) by {
            assert forall|k: int| 0 <= k < rest.len() implies (#[trigger] rest[k] as int) < high - (v + 1) - k by {
                assert(rest[k] == picks[k + 1]);
            }
        }
        assert((picks[0] as int) < high - v);
        if (picks[0] as int) < needed {
            lemma_selection(rest, needed - 1, v + 1, high);
            let tail = selection(rest, needed - 1, v + 1, high);
            let all = seq![v as u8] + tail;
            assert(selection(picks, needed, v, high) == all);
            assert forall|i: int, j: int| 0 <= i < j < all.len() implies all[i] < all[j] by {
                if i == 0 {
                    assert(all[j] == tail[j - 1]);
                } else {
                    assert(all[i] == tail[i - 1] && all[j] == tail[j - 1]);
                }
            }
            assert forall|i: int| 0 <= i < all.len() implies v <= #[trigger] all[i] < high by {
                if i > 0 {
                    assert(all[i] == tail[i - 1]);
                }
            }
        } else {
            lemma_selection(rest, needed, v + 1, high);
        }
    }
}

/// Draws that skip every number of the walk from `v` up to `s`: the walk
/// from `v` selects what the walk from `s` selects.
proof fn lemma_selection_skips(picks: Seq<usize>, needed: int, v: int, s: int, high: int)
    requires
        v <= s <= high,
        picks.len() >= s - v,
        forall|k: int| 0 <= k < s - v ==> (#[trigger] picks[k] as int) >= needed,
    ensures
        selection(picks, needed, v, high) == selection(picks.skip(s - v), needed, s, high),
    decreases s - v,
{
    if v == s {
        assert(picks.skip(0) =~= picks);
    } else {
        let rest = picks.drop_first();
        assert forall|k: int| 0 <= k < s - (v + 1) implies (#[trigger] rest[k] as int) >= needed by {
            assert(rest[k] == picks[k + 1]);
        }
        lemma_selection_skips(rest, needed, v + 1, s, high);
        assert(rest.skip(s - (v + 1)) =~= picks.skip(s - v));
    }
}

/// Zero draws keep the next `needed` numbers of the walk from `v`.
proof fn lemma_selection_zeros(picks: Seq<usize>, needed: int, v: int, high: int)
    requires
        0 <= needed,
        0 <= v,
        v + needed <= high <= 256,
        picks.len() >= high - v,
        forall|k: int| 0 <= k < picks.len() ==> #[trigger] picks[k] == 0,
    ensures
        selection(picks, needed, v, high) == Seq::new(needed as nat, |i: int| (v + i) as u8),
    decreases high - v,
{
    if needed > 0 {
        let rest = picks.drop_first();
        assert forall|k: int| 0 <= k < rest.len() implies #[trigger] rest[k] == 0 by {
            assert(rest[k] == picks[k + 1]);
        }
        lemma_selection_zeros(rest, needed - 1, v + 1, high);
        assert(picks[0] == 0);
        assert(selection(picks, needed, v, high) =~= Seq::new(needed as nat, |i: int| (v + i) as u8));
    } else {
        assert(selection(picks, needed, v, high) =~= Seq::new(needed as nat, |i: int| (v + i) as u8));
    }
}

/// Any number `x` of the range from `low` to `high` can be among the
/// `size` numbers that some draws select there.
pub proof fn lemma_selection_can_hold(low: int, high: int, size: int, x: int)
    requires
        0 <= low <= x < high <= 256,
        1 <= size <= high - low,
    ensures
        exists|picks: Seq<usize>|
            #[trigger] valid_picks(picks, low, high) && selection(picks, size, low, high).contains(
                x as u8,
            ),
{
    let s = if x < high - size {
        x
    } else {
        high - size
    };
    let picks = Seq::new(
        (high - low) as nat,
        |k: int|
            if low + k < s {
                (high - low - k - 1) as usize
            } else {
                0usize
            },
    );
    assert(valid_picks(picks, low, high));
    lemma_selection_skips(picks, size, low, s, high);
    let tail = picks.skip(s - low);
    assert forall|k: int| 0 <= k < tail.len() implies #[trigger] tail[k] == 0 by {
        assert(tail[k] == picks[k + s - low]);
    }
    lemma_selection_zeros(tail, size, s, high);
    let sel = selection(picks, size, low, high);
    assert(sel[x - s] == x as u8);
    assert(sel.contains(x as u8));
}

/// The numbers from `low` (inclusive) to `high` (exclusive) that the draws
/// `picks` select, `size` of them: the range is walked upwards and number
/// `low + k` is kept when `picks[k]` is below the count still wanted.
pub fn select_between(size: u8, low: u8, high: u8, picks: &Vec<usize>) -> (r: Vec<u8>)
    requires
        low <= high,
        size as int <= high as int - low as int,
        valid_picks(picks@, low as int, high as int),
    ensures
        r@ == selection(picks@, size as int, low as int, high as int),
        r@.len() == size,
        strictly_increasing(r@),
        forall|i: int| 0 <= i < r@.len() ==> low <= #[trigger] r@[i] < high,
{
    let ghost goal = selection(picks@, size as int, low as int, high as int);
    proof {
        lemma_selection(picks@, size as int, low as int, high as int);
        assert(picks@.skip(0) =~= picks@);
    }
    let mut vals: Vec<u8> = Vec::new();
    let mut needed: u8 = size;
    let mut v: u8 = low;
    while v < high
        invariant
            low <= v <= high,
            needed as int <= high as int - v as int,
            valid_picks(picks@, low as int, high as int),
            vals@ + selection(picks@.skip(v - low), needed as int, v as int, high as int) == goal,
        decreases high - v,
    {
        let ghost k = v - low;
        let ghost rest = picks@.skip(k);
        assert(rest[0] == picks@[k]);
        assert(rest.drop_first() =~= picks@.skip(k + 1));
        if needed > 0 {
            let pick = picks[(v - low) as usize];
            if pick < needed as usize {
                let ghost before = vals@;
                vals.push(v);
                assert(vals@ =~= before + seq![v]);
                assert(before + selection(rest, needed as int, v as int, high as int) == before + (seq![v]
                    + selection(picks@.skip(k + 1), needed - 1, v + 1, high as int)));
                assert(vals@ + selection(picks@.skip(k + 1), needed - 1, v + 1, high as int) =~= before
                    + (seq![v] + selection(picks@.skip(k + 1), needed - 1, v + 1, high as int)));
                needed = needed - 1;
            }
        }
        v = v + 1;
    }
    assert(selection(picks@.skip(v - low), needed as int, v as int, high as int) =~= Seq::<u8>::empty());
    assert(vals@ =~= goal);
    vals
}

/// `size` distinct numbers from `low` (inclusive) to `high` (exclusive),
/// chosen at random and returned in ascending order.
///
/// Every set of `size` numbers of the range is equally likely: one draw is
/// made for each number of the range, and `select_between` keeps each
/// number with probability (numbers still wanted) / (numbers still left),
/// so the numbers come out sorted and distinct without retries.
pub fn get_n_random_numbers_between(size: u8, low: u8, high: u8) -> (r: Vec<u8>)
    requires
        size == 0 || size as int <= high as int - low as int,
    ensures
        r@.len() == size,
        strictly_increasing(r@),
        forall|i: int| 0 <= i < r@.len() ==> low <= #[trigger] r@[i] < high,
        size > 0 ==> exists|picks: Seq<usize>|
            #[trigger] valid_picks(picks, low as int, high as int) && r@ == selection(
                picks,
                size as int,
                low as int,
                high as int,
            ),
        low <= high ==> exists|picks: Seq<usize>|
            #[trigger] valid_picks(picks, low as int, high as int) && r@ == selection(
                picks,
                size as int,
                low as int,
                high as int,
            ),
{
    if size == 0 {
        proof {
            if low <= high {
                let z = Seq::new((high - low) as nat, |k: int| 0usize);
                assert(valid_picks(z, low as int, high as int));
                assert(selection(z, 0, low as int, high as int) =~= Seq::<u8>::empty());
            }
        }
        return Vec::new();
    }
    let span: u8 = high - low;
    let mut picks: Vec<usize> = Vec::new();
    let mut k: u8 = 0;
    while k < span
        invariant
            k <= span,
            span == high - low,
            picks@.len() == k,
            forall|j: int| 0 <= j < k ==> (#[trigger] picks@[j] as int) < span - j,
        decreases span - k,
    {
        let pick = get_random_number_between_wasm(0, (span - k) as usize);
        picks.push(pick);
        k = k + 1;
    }
    let r = select_between(size, low, high, &picks);
    assert(valid_picks(picks@, low as int, high as int));
    r
}

/// The ticket cells of column `col`: one per row in `rows` (ascending),
/// holding the numbers `vals` in the same order.
spec fn column_cells_ok(cells: Seq<PositionedNumber>, rows: Seq<u8>, col: u8, vals: Seq<u8>) -> bool {
    &&& cells.len() <= rows.len()
    &&& forall|k: int| 0 <= k < cells.len() ==> #[trigger] cells[k] == PositionedNumber {
        row: rows[k],
        column: col,
        claimed: false,
        number: vals[k],
    }
}

/// The models of the rows' column lists.
pub open spec fn rows_view(rows: Seq<Vec<u8>>) -> Seq<Seq<u8>> {
    rows.map_values(|v: Vec<u8>| v@)
}

/// The rows below `n` whose columns include `c`, ascending.
pub open spec fn rows_with_below(rows: Seq<Seq<u8>>, c: u8, n: int) -> Seq<u8>
    decreases n,
{
    if n <= 0 {
        Seq::empty()
    } else {
        rows_with_below(rows, c, n - 1) + if rows[n - 1].contains(c) {
            seq![(n - 1) as u8]
        } else {
            Seq::empty()
        }
    }
}

/// The rows whose columns include `c`, ascending.
pub open spec fn rows_with(rows: Seq<Seq<u8>>, c: u8) -> Seq<u8> {
    rows_with_below(rows, c, 3)
}

/// The cells of column `c`: one per row that has the column, top to
/// bottom, holding the column's numbers `vals` in order.
pub open spec fn column_cells(rows: Seq<Seq<u8>>, c: u8, vals: Seq<u8>) -> Seq<PositionedNumber> {
    Seq::new(
        rows_with(rows, c).len(),
        |k: int| PositionedNumber { row: rows_with(rows, c)[k], column: c, claimed: false, number: vals[k] },
    )
}

/// The cells of the columns below `c`, column by column.
pub open spec fn layout_upto(rows: Seq<Seq<u8>>, vals: Seq<Seq<u8>>, c: int) -> Seq<PositionedNumber>
    decreases c,
{
    if c <= 0 {
        Seq::empty()
    } else {
        layout_upto(rows, vals, c - 1) + column_cells(rows, (c - 1) as u8, vals[c - 1])
    }
}

/// The ticket laid out from the rows' columns `rows` and the columns'
/// numbers `vals`.
pub open spec fn ticket_layout(rows: Seq<Seq<u8>>, vals: Seq<Seq<u8>>) -> Seq<PositionedNumber> {
    layout_upto(rows, vals, 10)
}

/// Each of the three rows has five distinct columns out of nine, ascending.
pub open spec fn valid_row_columns(rows: Seq<Seq<u8>>) -> bool {
    &&& rows.len() == 3
    &&& forall|r: int|
        0 <= r < 3 ==> {
            &&& (#[trigger] rows[r]).len() == 5
            &&& strictly_increasing(rows[r])
            &&& forall|i: int| 0 <= i < rows[r].len() ==> rows[r][i] < 9
        }
}

/// Each of the ten columns has one number per row that has the column,
/// ascending, all of the column's decade.
pub open spec fn valid_column_numbers(rows: Seq<Seq<u8>>, vals: Seq<Seq<u8>>) -> bool {
    &&& vals.len() == 10
    &&& forall|c: int|
        0 <= c < 10 ==> {
            &&& (#[trigger] vals[c]).len() == rows_with(rows, c as u8).len()
            &&& strictly_increasing(vals[c])
            &&& forall|i: int|
                0 <= i < vals[c].len() ==> column_low(c as u8) <= #[trigger] vals[c][i] < 10 * c + 10
        }
}

/// The rows whose columns include `col`, ascending.
fn rows_with_column(row_columns: &Vec<Vec<u8>>, col: u8) -> (cts: Vec<u8>)
    requires
        row_columns@.len() == 3,
    ensures
        cts@ == rows_with(rows_view(row_columns@), col),
        cts@.len() <= 3,
        strictly_increasing(cts@),
        forall|i: int| 0 <= i < cts@.len() ==> #[trigger] cts@[i] < 3,
        forall|x: u8| x < 3 ==> (cts@.contains(x) <==> row_columns@[x as int]@.contains(col)),
{
    let ghost rs = rows_view(row_columns@);
    let mut cts: Vec<u8> = Vec::new();
    let mut r: u8 = 0;
    while r < 3
        invariant
            r <= 3,
            row_columns@.len() == 3,
            rs == rows_view(row_columns@),
            cts@ == rows_with_below(rs, col, r as int),
            cts@.len() <= r,
            strictly_increasing(cts@),
            forall|i: int| 0 <= i < cts@.len() ==> #[trigger] cts@[i] < r,
            forall|x: u8| x < r ==> (cts@.contains(x) <==> row_columns@[x as int]@.contains(col)),
        decreases 3 - r,
    {
        assert(rs[r as int] == row_columns@[r as int]@);
        if contains_u8(&row_columns[r as usize], col) {
            let ghost before = cts@;
            cts.push(r);
            assert(cts@ =~= rows_with_below(rs, col, r + 1));
            assert forall|x: u8| x < r + 1 implies (cts@.contains(x) <==> row_columns@[x as int]@.contains(col)) by {
                if x < r {
                    if before.contains(x) {
                        let j = choose|j: int| 0 <= j < before.len() && before[j] == x;
                        assert(cts@[j] == x);
                    }
                    if cts@.contains(x) {
                        let j = choose|j: int| 0 <= j < cts@.len() && cts@[j] == x;
                        if j < before.len() {
                            assert(before[j] == x);
                        }
                    }
                } else {
                    assert(cts@[cts@.len() - 1] == r);
                }
            }
        } else {
            assert(cts@ =~= rows_with_below(rs, col, r + 1));
            assert forall|x: u8| x < r + 1 implies (cts@.contains(x) <==> row_columns@[x as int]@.contains(col)) by {
                if x == r && cts@.contains(x) {
                    let j = choose|j: int| 0 <= j < cts@.len() && cts@[j] == x;
                    assert(cts@[j] < r);
                }
            }
        }
        r = r + 1;
    }
    cts
}

/// The ticket that given draws lay out: `row_columns[r]` are the columns of
/// row `r`, and `column_numbers[c]` the numbers of column `c`, top to
/// bottom. The cells come column by column, top to bottom, unclaimed.
pub fn ticket_from_draws(row_columns: &Vec<Vec<u8>>, column_numbers: &Vec<Vec<u8>>) -> (r: Vec<PositionedNumber>)
    requires
        valid_row_columns(rows_view(row_columns@)),
        valid_column_numbers(rows_view(row_columns@), rows_view(column_numbers@)),
    ensures
        r@ == ticket_layout(rows_view(row_columns@), rows_view(column_numbers@)),
        valid_ticket(r@),
{
    let ghost rs = rows_view(row_columns@);
    let ghost vs = rows_view(column_numbers@);
    let ghost rc = row_columns@;
    proof {
        assert forall|r: int| 0 <= r < 3 implies #[trigger] rs[r] == rc[r]@ by {}
    }
    let mut pn: Vec<PositionedNumber> = Vec::new();
    proof {
        assert forall|r: u8| r < 3 implies #[trigger] row_count(pn@, r) == count_below(
            rc[r as int]@,
            0,
        ) by {
            lemma_count_below_zero(rc[r as int]@);
        }
        assert(pn@ =~= layout_upto(rs, vs, 0));
    }
    let mut col: u8 = 0;
    while col < 10
        invariant
            col <= 10,
            row_columns@ == rc,
            rs == rows_view(rc),
            vs == rows_view(column_numbers@),
            valid_row_columns(rs),
            valid_column_numbers(rs, vs),
            rc.len() == 3,
            forall|r: int| 0 <= r < 3 ==> #[trigger] rs[r] == rc[r]@,
            pn@ == layout_upto(rs, vs, col as int),
            forall|i: int| 0 <= i < pn@.len() ==> valid_cell(#[trigger] pn@[i]),
            forall|i: int| 0 <= i < pn@.len() ==> #[trigger] pn@[i].column < col,
            forall|i: int, j: int|
                0 <= i < j < pn@.len() ==> cell_before(#[trigger] pn@[i], #[trigger] pn@[j]),
            forall|r: u8| r < 3 ==> #[trigger] row_count(pn@, r) == count_below(rc[r as int]@, col as int),
        decreases 10 - col,
    {
        let cts = rows_with_column(row_columns, col);
        proof {
            lemma_increasing_no_dup(cts@);
            if cts@.len() > 0 {
                let x = cts@[0];
                assert(cts@.contains(x));
                assert(rc[x as int]@.contains(col));
                assert(rs[x as int] == rc[x as int]@);
                let j = choose|j: int| 0 <= j < rc[x as int]@.len() && rc[x as int]@[j] == col;
                assert(rs[x as int][j] < 9);
            }
        }
        let add: u8 = if col == 0 {
            1
        } else {
            0
        };
        let vals = &column_numbers[col as usize];
        proof {
            assert(vs[col as int] == vals@);
            assert(vals@.len() == cts@.len());
        }
        let ghost pn0 = pn@;
        let mut i: usize = 0;
        while i < cts.len()
            invariant
                i <= cts@.len(),
                cts@.len() <= 3,
                vals@.len() == cts@.len(),
                cts@ == rows_with(rs, col),
                vals@ == vs[col as int],
                strictly_increasing(cts@),
                strictly_increasing(vals@),
                forall|k: int| 0 <= k < cts@.len() ==> #[trigger] cts@[k] < 3,
                forall|k: int| 0 <= k < vals@.len() ==> col * 10 + add <= #[trigger] vals@[k] < col * 10 + 10,
                add == (if col == 0 { 1u8 } else { 0u8 }),
                cts@.len() > 0 ==> col < 9,
                pn@.len() == pn0.len() + i,
                pn@ == pn0 + column_cells(rs, col, vals@).take(i as int),
                pn@.take(pn0.len() as int) == pn0,
                column_cells_ok(pn@.skip(pn0.len() as int), cts@, col, vals@),
                forall|k: int| 0 <= k < pn0.len() ==> valid_cell(#[trigger] pn0[k]),
                forall|k: int| 0 <= k < pn0.len() ==> #[trigger] pn0[k].column < col,
                forall|a: int, b: int|
                    0 <= a < b < pn0.len() ==> cell_before(#[trigger] pn0[a], #[trigger] pn0[b]),
                forall|x: u8| x < 3 ==> #[trigger] row_count(pn@, x) == row_count(pn0, x) + count_eq(cts@.take(i as int), x),
            decreases cts@.len() - i,
        {
            let cell = PositionedNumber { row: cts[i], column: col, claimed: false, number: vals[i] };
            let ghost before = pn@;
            pn.push(cell);
            proof {
                assert(pn@.drop_last() == before);
                assert(cts@.take(i + 1).drop_last() =~= cts@.take(i as int));
                assert(pn@.take(pn0.len() as int) =~= pn0);
                assert(pn@.skip(pn0.len() as int) =~= before.skip(pn0.len() as int).push(cell));
                assert(column_cells(rs, col, vals@)[i as int] == cell);
                assert(column_cells(rs, col, vals@).take(i + 1) =~= column_cells(rs, col, vals@).take(
                    i as int,
                ).push(cell));
                assert(pn@ =~= pn0 + column_cells(rs, col, vals@).take(i + 1));
                assert forall|x: u8| x < 3 implies #[trigger] row_count(pn@, x) == row_count(pn0, x)
                    + count_eq(cts@.take(i + 1), x) by {
                    assert(pn@.last() == cell);
                    assert(cts@.take(i + 1).last() == cts@[i as int]);
                    assert(row_count(pn@, x) == row_count(before, x) + if cell.row == x {
                        1nat
                    } else {
                        0nat
                    });
                    assert(count_eq(cts@.take(i + 1), x) == count_eq(cts@.take(i as int), x) + if cts@[i as int] == x {
                        1nat
                    } else {
                        0nat
                    });
                }
            }
            i = i + 1;
        }
        proof {
            assert(column_cells(rs, col, vals@).take(cts@.len() as int) =~= column_cells(rs, col, vals@));
            assert(pn@ == layout_upto(rs, vs, col + 1));
            let new_cells = pn@.skip(pn0.len() as int);
            assert forall|k: int| 0 <= k < pn@.len() implies valid_cell(#[trigger] pn@[k]) by {
                if k < pn0.len() {
                    assert(pn@[k] == pn@.take(pn0.len() as int)[k]);
                } else {
                    assert(pn@[k] == new_cells[k - pn0.len()]);
                }
            }
            assert forall|k: int| 0 <= k < pn@.len() implies #[trigger] pn@[k].column < col + 1 by {
                if k < pn0.len() {
                    assert(pn@[k] == pn@.take(pn0.len() as int)[k]);
                } else {
                    assert(pn@[k] == new_cells[k - pn0.len()]);
                }
            }
            assert forall|a: int, b: int| 0 <= a < b < pn@.len() implies cell_before(
                #[trigger] pn@[a],
                #[trigger] pn@[b],
            ) by {
                if b < pn0.len() {
                    assert(pn@[a] == pn@.take(pn0.len() as int)[a]);
                    assert(pn@[b] == pn@.take(pn0.len() as int)[b]);
                } else if a < pn0.len() {
                    assert(pn@[a] == pn@.take(pn0.len() as int)[a]);
                    assert(pn@[b] == new_cells[b - pn0.len()]);
                } else {
                    assert(pn@[a] == new_cells[a - pn0.len()]);
                    assert(pn@[b] == new_cells[b - pn0.len()]);
                }
            }
            assert(cts@.take(cts@.len() as int) =~= cts@);
            assert forall|x: u8| x < 3 implies #[trigger] row_count(pn@, x) == count_below(
                rc[x as int]@,
                col as int + 1,
            ) by {
                assert(rs[x as int] == rc[x as int]@);
                lemma_count_below_step(rc[x as int]@, col);
                lemma_increasing_no_dup(rc[x as int]@);
                lemma_count_eq_no_dup(rc[x as int]@, col);
                lemma_count_eq_no_dup(cts@, x);
            }
        }
        col = col + 1;
    }
    proof {
        assert forall|r: u8| r < 3 implies #[trigger] row_count(pn@, r) == 5 by {
            assert(rs[r as int] == rc[r as int]@);
            lemma_count_below_all(rc[r as int]@, 10);
        }
        assert forall|i: int| 0 <= i < pn@.len() implies #[trigger] pn@[i].row < 3 by {
            assert(valid_cell(pn@[i]));
        }
        lemma_len_is_row_sum(pn@);
        assert(row_count(pn@, 0) == 5);
        assert(row_count(pn@, 1) == 5);
        assert(row_count(pn@, 2) == 5);
    }
    pn
}

/// The columns `cols` of a row are the selection that some draws make of
/// five columns out of the nine columns 0 to 8.
pub open spec fn drawn_row(cols: Seq<u8>) -> bool {
    exists|picks: Seq<usize>| #[trigger] valid_picks(picks, 0, 9) && cols == selection(picks, 5, 0, 9)
}

/// The numbers `vals` of column `c` are the selection that some draws make
/// out of the column's decade, one number per row that has the column.
pub open spec fn drawn_column(rows: Seq<Seq<u8>>, c: int, vals: Seq<u8>) -> bool {
    exists|picks: Seq<usize>|
        #[trigger] valid_picks(picks, column_low(c as u8), 10 * c + 10) && vals == selection(
            picks,
            rows_with(rows, c as u8).len() as int,
            column_low(c as u8),
            10 * c + 10,
        )
}

/// Rows' columns `rows` and columns' numbers `vals` as the random draws of
/// a fresh ticket make them: each row's columns drawn out of 0 to 8, and
/// each column's numbers drawn out of its decade.
pub open spec fn drawn_layout(rows: Seq<Seq<u8>>, vals: Seq<Seq<u8>>) -> bool {
    &&& rows.len() == 3
    &&& forall|r: int| 0 <= r < 3 ==> drawn_row(#[trigger] rows[r])
    &&& vals.len() == 10
    &&& forall|c: int| 0 <= c < 10 ==> drawn_column(rows, c, #[trigger] vals[c])
}

/// Fifteen random numbers laid out on a fresh ticket: each of the three
/// rows gets five distinct columns out of nine, and each column gets as
/// many distinct numbers of its decade as it has cells, ascending down
/// the column; `ticket_from_draws` lays them out.
pub fn get_random_ticket_numbers() -> (r: Vec<PositionedNumber>)
    ensures
        valid_ticket(r@),
        exists|rows: Seq<Seq<u8>>, vals: Seq<Seq<u8>>|
            #[trigger] valid_row_columns(rows) && #[trigger] valid_column_numbers(rows, vals) && r@
                == ticket_layout(rows, vals),
        exists|rows: Seq<Seq<u8>>, vals: Seq<Seq<u8>>|
            #[trigger] drawn_layout(rows, vals) && r@ == ticket_layout(rows, vals),
{
    let mut row_columns: Vec<Vec<u8>> = Vec::new();
    let mut row: u8 = 0;
    while row < 3
        invariant
            row <= 3,
            row_columns@.len() == row,
            forall|r: int|
                0 <= r < row ==> {
                    &&& (#[trigger] row_columns@[r])@.len() == 5
                    &&& strictly_increasing(row_columns@[r]@)
                    &&& forall|i: int| 0 <= i < row_columns@[r]@.len() ==> row_columns@[r]@[i] < 9
                    &&& drawn_row(row_columns@[r]@)
                },
        decreases 3 - row,
    {
        let vals = get_n_random_numbers_between(5, 0, 9);
        row_columns.push(vals);
        row = row + 1;
    }
    let ghost rs = rows_view(row_columns@);
    assert(valid_row_columns(rs)) by {
        assert forall|r: int| 0 <= r < 3 implies #[trigger] rs[r] == row_columns@[r]@ by {}
    }
    let mut column_numbers: Vec<Vec<u8>> = Vec::new();
    let mut col: u8 = 0;
    while col < 10
        invariant
            col <= 10,
            row_columns@.len() == 3,
            rs == rows_view(row_columns@),
            valid_row_columns(rs),
            column_numbers@.len() == col,
            forall|c: int|
                0 <= c < col ==> {
                    &&& (#[trigger] column_numbers@[c])@.len() == rows_with(rs, c as u8).len()
                    &&& strictly_increasing(column_numbers@[c]@)
                    &&& forall|i: int|
                        0 <= i < column_numbers@[c]@.len() ==> column_low(c as u8)
                            <= #[trigger] column_numbers@[c]@[i] < 10 * c + 10
                    &&& drawn_column(rs, c, column_numbers@[c]@)
                },
        decreases 10 - col,
    {
        let cts = rows_with_column(&row_columns, col);
        let add: u8 = if col == 0 {
            1
        } else {
            0
        };
        let count = cts.len() as u8;
        let vals = get_n_random_numbers_between(count, col * 10 + add, col * 10 + 10);
        proof {
            assert(column_low(col) == col * 10 + add);
            assert(count as int == rows_with(rs, col).len());
            let lo: u8 = (col * 10 + add) as u8;
            let hi: u8 = (col * 10 + 10) as u8;
            assert(lo <= hi);
            let picks = choose|picks: Seq<usize>|
                #[trigger] valid_picks(picks, lo as int, hi as int) && vals@ == selection(
                    picks,
                    count as int,
                    lo as int,
                    hi as int,
                );
            assert(valid_picks(picks, column_low((col as int) as u8), 10 * (col as int) + 10));
            assert(drawn_column(rs, col as int, vals@));
        }
        column_numbers.push(vals);
        col = col + 1;
    }
    proof {
        let vs = rows_view(column_numbers@);
        assert forall|c: int| 0 <= c < 10 implies #[trigger] vs[c] == column_numbers@[c]@ by {}
        assert(valid_column_numbers(rs, vs));
    }
    let r = ticket_from_draws(&row_columns, &column_numbers);
    assert(valid_row_columns(rs) && valid_column_numbers(rs, rows_view(column_numbers@)));
    proof {
        let vs = rows_view(column_numbers@);
        assert forall|c: int| 0 <= c < 10 implies drawn_column(rs, c, #[trigger] vs[c]) by {
            assert(vs[c] == column_numbers@[c]@);
        }
        assert forall|q: int| 0 <= q < 3 implies drawn_row(#[trigger] rs[q]) by {
            assert(rs[q] == row_columns@[q]@);
        }
        assert(drawn_layout(rs, vs));
    }
    r
}

/// A copy of `v`.
fn copy_usizes(v: &Vec<usize>) -> (r: Vec<usize>)
    ensures
        r@ == v@,
{
    let mut r: Vec<usize> = Vec::new();
    let mut i: usize = 0;
    while i < v.len()
        invariant
            i <= v@.len(),
            r@ == v@.take(i as int),
        decreases v@.len() - i,
    {
        r.push(v[i]);
        i = i + 1;
        assert(r@ =~= v@.take(i as int));
    }
    assert(r@ =~= v@);
    r
}

/// `v` without any occurrence of `x`.
fn without_value(v: &Vec<usize>, x: usize) -> (r: Vec<usize>)
    ensures
        forall|y: usize| r@.contains(y) <==> (v@.contains(y) && y != x),
{
    let mut r: Vec<usize> = Vec::new();
    let mut i: usize = 0;
    while i < v.len()
        invariant
            i <= v@.len(),
            forall|y: usize| r@.contains(y) <==> (v@.take(i as int).contains(y) && y != x),
        decreases v@.len() - i,
    {
        let ghost before = r@;
        if v[i] != x {
            r.push(v[i]);
        }
        proof {
            let t = v@.take(i + 1);
            assert(t =~= v@.take(i as int).push(v@[i as int]));
            assert forall|y: usize| r@.contains(y) <==> (t.contains(y) && y != x) by {
                if r@.contains(y) {
                    let j = choose|j: int| 0 <= j < r@.len() && r@[j] == y;
                    if j < before.len() {
                        assert(before.contains(y));
                        let k = choose|k: int| 0 <= k < i && v@.take(i as int)[k] == y;
                        assert(t[k] == y);
                    } else {
                        assert(t[i as int] == y);
                    }
                }
                if t.contains(y) && y != x {
                    let k = choose|k: int| 0 <= k < t.len() && t[k] == y;
                    if k < i {
                        assert(v@.take(i as int)[k] == y);
                        assert(v@.take(i as int).contains(y));
                        assert(before.contains(y));
                        let j = choose|j: int| 0 <= j < before.len() && before[j] == y;
                        assert(r@[j] == y);
                    } else {
                        assert(r@[r@.len() - 1] == y);
                    }
                }
            }
        }
        i = i + 1;
    }
    assert(v@.take(v@.len() as int) =~= v@);
    r
}

/// The smaller of two numbers.
pub open spec fn min_nat(a: nat, b: nat) -> nat {
    if a <= b {
        a
    } else {
        b
    }
}

/// `picks` are distinct values taken from `numbers`.
pub open spec fn distinct_picks_from(picks: Seq<usize>, numbers: Seq<usize>) -> bool {
    &&& picks.no_duplicates()
    &&& forall|i: int| 0 <= i < picks.len() ==> numbers.contains(#[trigger] picks[i])
}

/// `n` distinct values of `numbers`, chosen at random; `None` unless the
/// list is longer than `n`. When `numbers` repeats values, fewer than `n`
/// may come back: as many as it has distinct values.
pub fn n_uniform_random_from(numbers: Vec<usize>, n: usize) -> (r: Option<Vec<usize>>)
    ensures
        r is None <==> numbers@.len() <= n,
        r matches Some(picks) ==> {
            &&& distinct_picks_from(picks@, numbers@)
            &&& picks@.len() == min_nat(n as nat, numbers@.to_set().len())
        },
{
    broadcast use {vstd::set::group_set_axioms, vstd::seq_lib::seq_to_set_is_finite};

    if numbers.len() > n {
        let ghost all = numbers@;
        let ghost total = all.to_set().len();
        let mut ret: Vec<usize> = Vec::new();
        let mut new_nums = copy_usizes(&numbers);
        let mut i: usize = 0;
        while i < n
            invariant
                i <= n,
                forall|y: usize| new_nums@.contains(y) <==> (all.contains(y) && !ret@.contains(y)),
                distinct_picks_from(ret@, all),
                ret@.len() == min_nat(i as nat, total),
                new_nums@.to_set().len() + ret@.len() == total,
            decreases n - i,
        {
            proof {
                new_nums@.lemma_cardinality_of_empty_set_is_0();
            }
            if let Some(num) = one_uniform_random_from(copy_usizes(&new_nums)) {
                let ghost before = ret@;
                let ghost old_set = new_nums@.to_set();
                ret.push(num);
                new_nums = without_value(&new_nums, num);
                proof {
                    assert(new_nums@.to_set() =~= old_set.remove(num));
                    assert forall|y: usize| ret@.contains(y) <==> (before.contains(y) || y == num) by {
                        if ret@.contains(y) {
                            let j = choose|j: int| 0 <= j < ret@.len() && ret@[j] == y;
                            if j < before.len() {
                                assert(before[j] == y);
                            }
                        }
                        if before.contains(y) {
                            let j = choose|j: int| 0 <= j < before.len() && before[j] == y;
                            assert(ret@[j] == y);
                        }
                        if y == num {
                            assert(ret@[ret@.len() - 1] == y);
                        }
                    }
                    assert(ret@.no_duplicates()) by {
                        assert forall|a: int, b: int|
                            0 <= a < ret@.len() && 0 <= b < ret@.len() && a != b implies ret@[a] != ret@[b] by {
                            if a < before.len() && b < before.len() {
                                assert(before[a] == ret@[a] && before[b] == ret@[b]);
                            } else if a < before.len() {
                                assert(before.contains(ret@[a]));
                            } else if b < before.len() {
                                assert(before.contains(ret@[b]));
                            }
                        }
                    }
                    assert forall|k: int| 0 <= k < ret@.len() implies all.contains(#[trigger] ret@[k]) by {
                        if k < before.len() {
                            assert(before[k] == ret@[k]);
                        }
                    }
                }
            }
            i = i + 1;
        }
        Some(ret)
    } else {
        None
    }
}

/// `n` distinct numbers from `low` to `high` (both inclusive), chosen at
/// random; `None` unless the range holds more than `n` numbers.
pub fn n_uniform_random_from_range(low: usize, high: usize, n: usize) -> (r: Option<Vec<usize>>)
    requires
        high < usize::MAX,
    ensures
        r is None <==> high + 1 - low <= n,
        r matches Some(picks) ==> {
            &&& picks@.no_duplicates()
            &&& picks@.len() == n
            &&& forall|i: int| 0 <= i < picks@.len() ==> low <= #[trigger] picks@[i] <= high
        },
{
    let mut nums: Vec<usize> = Vec::new();
    let mut x: usize = low;
    while x < high + 1
        invariant
            high < usize::MAX,
            low <= x,
            x <= low || x <= high + 1,
            nums@.len() == x - low,
            forall|i: int| 0 <= i < nums@.len() ==> #[trigger] nums@[i] == low + i,
        decreases high + 1 - x,
    {
        nums.push(x);
        x = x + 1;
    }
    proof {
        assert(nums@.no_duplicates());
        nums@.unique_seq_to_set();
        assert(nums@.len() == if low <= high + 1 { high + 1 - low } else { 0 });
    }
    let ghost all = nums@;
    let r = n_uniform_random_from(nums, n);
    proof {
        if r is Some {
            let picks = r->0@;
            assert forall|i: int| 0 <= i < picks.len() implies low <= #[trigger] picks[i] <= high by {
                assert(all.contains(picks[i]));
                let j = choose|j: int| 0 <= j < all.len() && all[j] == picks[i];
            }
        }
    }
    r
}

} // verus!
