//! Core game data: tickets, users, the game snapshot and win verification.

use vstd::prelude::*;

pub mod proto;
pub mod random;

pub use self::random::{
    get_n_random_numbers_between, get_random_number_between_wasm, get_random_ticket_numbers,
    n_uniform_random_from, n_uniform_random_from_range, one_uniform_random_from, select_between,
    ticket_from_draws,
};

verus! {

/// The largest number on the board; numbers run from 1 to this value.
pub const BOARD_MAX: u8 = 90;

/// A number on a ticket, with its place on the ticket grid and whether the
/// player has claimed it.
#[derive(Clone, Copy, Debug, PartialEq, Eq, Structural)]
pub struct PositionedNumber {
    pub row: u8,
    pub column: u8,
    pub claimed: bool,
    pub number: u8,
}

/// The rule a prize is verified by.
#[derive(Clone, Copy, Debug, PartialEq, Eq, Structural)]
pub enum WinningVerifier {
    LoveAtFirstSight,
    BullsEye,
    Early(u8),
    Line(u8),
    Range(u8, u8),
    BloodPressure,
    Temprature,
    NthHousie(u8),
}

/// How the host asks for the next number.
#[derive(Clone, Copy, Debug, PartialEq, Eq, Structural)]
pub enum Draw {
    Random,
    Specific(u8),
}

/// The role of a user in a game.
#[derive(Clone, Copy, Debug, PartialEq, Eq, Structural)]
pub enum UserType {
    Host,
    NonHost,
}

/// A player's ticket.
#[derive(Debug, PartialEq)]
pub struct Ticket {
    pub numbers: Vec<PositionedNumber>,
}

/// A prize of the game, and who has won it (by user id), if anyone.
#[derive(Debug, PartialEq)]
pub struct Winning {
    pub name: String,
    pub verify_by: WinningVerifier,
    pub winner: Option<u128>,
}

/// The announced winner of a prize.
#[derive(Debug, PartialEq)]
pub struct Winner {
    pub user: String,
    pub win_name: String,
    pub ticket: Ticket,
}

/// A participant of a game; the id is the 128-bit value of a UUID.
#[derive(Debug, PartialEq)]
pub struct User {
    pub id: u128,
    pub name: String,
    pub user_type: UserType,
    pub ticket: Ticket,
}

/// The public state of a game: the numbers drawn so far, in order,
/// whether the game has started, and the prizes.
#[derive(Debug, PartialEq)]
pub struct GameSnapshot {
    pub done_numbers: Vec<u8>,
    pub started: bool,
    pub winnings: Vec<Winning>,
}

/// Mathematical model of a `Winning`.
pub struct WinningView {
    pub name: Seq<char>,
    pub verify_by: WinningVerifier,
    pub winner: Option<u128>,
}

/// Mathematical model of a `User`.
pub struct UserView {
    pub id: u128,
    pub name: Seq<char>,
    pub user_type: UserType,
    pub ticket: Seq<PositionedNumber>,
}

/// Mathematical model of a `Winner`.
pub struct WinnerView {
    pub user: Seq<char>,
    pub win_name: Seq<char>,
    pub ticket: Seq<PositionedNumber>,
}

/// Mathematical model of a `GameSnapshot`.
pub struct SnapshotView {
    pub done_numbers: Seq<u8>,
    pub started: bool,
    pub winnings: Seq<WinningView>,
}

impl View for Ticket {
    type V = Seq<PositionedNumber>;

    open spec fn view(&self) -> Seq<PositionedNumber> {
        self.numbers@
    }
}

impl View for Winning {
    type V = WinningView;

    open spec fn view(&self) -> WinningView {
        WinningView { name: self.name@, verify_by: self.verify_by, winner: self.winner }
    }
}

impl View for User {
    type V = UserView;

    open spec fn view(&self) -> UserView {
        UserView {
            id: self.id,
            name: self.name@,
            user_type: self.user_type,
            ticket: self.ticket@,
        }
    }
}

impl View for Winner {
    type V = WinnerView;

    open spec fn view(&self) -> WinnerView {
        WinnerView { user: self.user@, win_name: self.win_name@, ticket: self.ticket@ }
    }
}

/// The models of a sequence of winnings.
pub open spec fn winnings_view(ws: Seq<Winning>) -> Seq<WinningView> {
    ws.map_values(|w: Winning| w@)
}

impl View for GameSnapshot {
    type V = SnapshotView;

    open spec fn view(&self) -> SnapshotView {
        SnapshotView {
            done_numbers: self.done_numbers@,
            started: self.started,
            winnings: winnings_view(self.winnings@),
        }
    }
}

impl Clone for Ticket {
    fn clone(&self) -> (r: Self)
        ensures
            r@ == self@,
    {
        let mut numbers: Vec<PositionedNumber> = Vec::new();
        let mut i: usize = 0;
        while i < self.numbers.len()
            invariant
                i <= self.numbers@.len(),
                numbers@ == self.numbers@.take(i as int),
            decreases self.numbers@.len() - i,
        {
            numbers.push(self.numbers[i]);
            i = i + 1;
            assert(numbers@ =~= self.numbers@.take(i as int));
        }
        assert(numbers@ =~= self.numbers@);
        Ticket { numbers }
    }
}

impl Clone for Winning {
    fn clone(&self) -> (r: Self)
        ensures
            r@ == self@,
    {
        Winning { name: self.name.clone(), verify_by: self.verify_by, winner: self.winner }
    }
}

impl Clone for User {
    fn clone(&self) -> (r: Self)
        ensures
            r@ == self@,
    {
        User {
            id: self.id,
            name: self.name.clone(),
            user_type: self.user_type,
            ticket: self.ticket.clone(),
        }
    }
}

impl Clone for Winner {
    fn clone(&self) -> (r: Self)
        ensures
            r@ == self@,
    {
        Winner {
            user: self.user.clone(),
            win_name: self.win_name.clone(),
            ticket: self.ticket.clone(),
        }
    }
}

/// Copies a list of winnings, element by element.
pub fn clone_winnings(ws: &Vec<Winning>) -> (r: Vec<Winning>)
    ensures
        winnings_view(r@) == winnings_view(ws@),
{
    let mut r: Vec<Winning> = Vec::new();
    let mut i: usize = 0;
    while i < ws.len()
        invariant
            i <= ws@.len(),
            r@.len() == i,
            forall|j: int| 0 <= j < i ==> #[trigger] r@[j]@ == ws@[j]@,
        decreases ws@.len() - i,
    {
        r.push(ws[i].clone());
        i = i + 1;
    }
    assert(winnings_view(r@) =~= winnings_view(ws@));
    r
}

impl Clone for GameSnapshot {
    fn clone(&self) -> (r: Self)
        ensures
            r@ == self@,
    {
        let mut done: Vec<u8> = Vec::new();
        let mut i: usize = 0;
        while i < self.done_numbers.len()
            invariant
                i <= self.done_numbers@.len(),
                done@ == self.done_numbers@.take(i as int),
            decreases self.done_numbers@.len() - i,
        {
            done.push(self.done_numbers[i]);
            i = i + 1;
            assert(done@ =~= self.done_numbers@.take(i as int));
        }
        assert(done@ =~= self.done_numbers@);
        GameSnapshot {
            done_numbers: done,
            started: self.started,
            winnings: clone_winnings(&self.winnings),
        }
    }
}

/// `n` is a number of the board that has not been drawn yet.
pub open spec fn is_available(done: Seq<u8>, n: u8) -> bool {
    1 <= n <= BOARD_MAX && !done.contains(n)
}

/// The sequence is strictly increasing.
pub open spec fn strictly_increasing(s: Seq<u8>) -> bool {
    forall|i: int, j: int| 0 <= i < j < s.len() ==> s[i] < s[j]
}

/// `r` lists, in ascending order, exactly the numbers of the board that
/// `done` does not hold.
pub open spec fn is_non_done(r: Seq<u8>, done: Seq<u8>) -> bool {
    &&& strictly_increasing(r)
    &&& forall|i: int| 0 <= i < r.len() ==> 1 <= #[trigger] r[i] <= BOARD_MAX
    &&& forall|n: u8| is_available(done, n) <==> r.contains(n)
}

/// Every drawn number is on the board and none was drawn twice.
pub open spec fn valid_done(done: Seq<u8>) -> bool {
    &&& done.no_duplicates()
    &&& forall|i: int| 0 <= i < done.len() ==> 1 <= #[trigger] done[i] <= BOARD_MAX
}

/// What `draw_number` does: from the snapshot `old` and the request `draw`
/// it returns `r` and leaves the snapshot `new`.
pub open spec fn draw_outcome(old: SnapshotView, draw: Draw, r: Option<u8>, new: SnapshotView) -> bool {
    &&& new.started == old.started
    &&& new.winnings == old.winnings
    &&& match r {
        Some(n) => is_available(old.done_numbers, n) && new.done_numbers == old.done_numbers.push(n),
        None => new.done_numbers == old.done_numbers,
    }
    &&& match draw {
        Draw::Specific(n) => r == (if is_available(old.done_numbers, n) {
            Some(n)
        } else {
            None
        }),
        Draw::Random => (r is Some <==> exists|n: u8| is_available(old.done_numbers, n)),
    }
}

/// `i` is the first prize called `name`.
pub open spec fn is_first_named(ws: Seq<WinningView>, name: Seq<char>, i: int) -> bool {
    &&& 0 <= i < ws.len()
    &&& ws[i].name == name
    &&& forall|j: int| 0 <= j < i ==> #[trigger] ws[j].name != name
}

/// Some prize is called `name`.
pub open spec fn has_winning_named(ws: Seq<WinningView>, name: Seq<char>) -> bool {
    exists|i: int| 0 <= i < ws.len() && #[trigger] ws[i].name == name
}

/// The prize model `w` with `user` recorded as its winner.
pub open spec fn won_by(w: WinningView, user: u128) -> WinningView {
    WinningView { name: w.name, verify_by: w.verify_by, winner: Some(user) }
}

/// What `mark_winner` does: the first prize called `name` gets `user` as
/// its winner, and nothing else changes.
pub open spec fn mark_winner_outcome(old: SnapshotView, name: Seq<char>, user: u128, new: SnapshotView) -> bool {
    &&& new.started == old.started
    &&& new.done_numbers == old.done_numbers
    &&& exists|i: int|
        is_first_named(old.winnings, name, i) && new.winnings == old.winnings.update(
            i,
            won_by(old.winnings[i], user),
        )
}

/// Some prize verified by `v` has no winner yet.
pub open spec fn has_open_winning(ws: Seq<WinningView>, v: WinningVerifier) -> bool {
    exists|i: int| 0 <= i < ws.len() && #[trigger] ws[i].verify_by == v && ws[i].winner is None
}

/// The ticket holds `n` as a claimed number.
pub open spec fn has_claimed(ticket: Seq<PositionedNumber>, n: u8) -> bool {
    exists|j: int| 0 <= j < ticket.len() && #[trigger] ticket[j].number == n && ticket[j].claimed
}

/// Whether verifier `v` accepts `ticket` in the game `game`: no prize with
/// the same verifier may still be open, and only "love at first sight" is
/// implemented: exactly one number drawn, and it is claimed on the ticket.
pub open spec fn verify_spec(v: WinningVerifier, game: SnapshotView, ticket: Seq<PositionedNumber>) -> bool {
    &&& !has_open_winning(game.winnings, v)
    &&& v is LoveAtFirstSight
    &&& game.done_numbers.len() == 1
    &&& has_claimed(ticket, game.done_numbers[0])
}

/// `i` is the first ticket position holding `n` unclaimed.
pub open spec fn is_first_unclaimed(ns: Seq<PositionedNumber>, n: u8, i: int) -> bool {
    &&& 0 <= i < ns.len()
    &&& ns[i].number == n
    &&& !ns[i].claimed
    &&& forall|j: int| 0 <= j < i ==> !(#[trigger] ns[j].number == n && !ns[j].claimed)
}

/// The ticket holds `n` unclaimed somewhere.
pub open spec fn has_unclaimed(ns: Seq<PositionedNumber>, n: u8) -> bool {
    exists|i: int| 0 <= i < ns.len() && #[trigger] ns[i].number == n && !ns[i].claimed
}

/// The ticket cell `p`, claimed.
pub open spec fn claimed_cell(p: PositionedNumber) -> PositionedNumber {
    PositionedNumber { row: p.row, column: p.column, claimed: true, number: p.number }
}

/// What `Ticket::claim_number` does: it claims the first unclaimed
/// occurrence of `n` and returns whether there was one.
pub open spec fn claim_outcome(old: Seq<PositionedNumber>, n: u8, r: bool, new: Seq<PositionedNumber>) -> bool {
    &&& r == has_unclaimed(old, n)
    &&& r ==> exists|i: int|
        is_first_unclaimed(old, n, i) && new == old.update(i, claimed_cell(old[i]))
    &&& !r ==> new == old
}

/// The position of the first prize called `name`, if any.
pub(crate) fn first_winning_named(ws: &Vec<Winning>, name: &String) -> (r: Option<usize>)
    ensures
        r is None <==> !has_winning_named(winnings_view(ws@), name@),
        r matches Some(i) ==> is_first_named(winnings_view(ws@), name@, i as int),
{
    let ghost wv = winnings_view(ws@);
    let mut index: usize = 0;
    while index < ws.len()
        invariant
            index <= ws@.len(),
            wv == winnings_view(ws@),
            forall|j: int| 0 <= j < index ==> #[trigger] wv[j].name != name@,
        decreases ws@.len() - index,
    {
        assert(wv[index as int] == ws@[index as int]@);
        if ws[index].name == *name {
            assert(wv[index as int].name == name@);
            return Some(index);
        }
        index = index + 1;
    }
    None
}

/// The position of the first unclaimed occurrence of `n`, if any.
fn first_unclaimed_index(ns: &Vec<PositionedNumber>, n: u8) -> (r: Option<usize>)
    ensures
        r is Some <==> has_unclaimed(ns@, n),
        r matches Some(i) ==> is_first_unclaimed(ns@, n, i as int),
{
    let mut index: usize = 0;
    while index < ns.len()
        invariant
            index <= ns@.len(),
            forall|j: int|
                0 <= j < index ==> !(#[trigger] ns@[j].number == n && !ns@[j].claimed),
        decreases ns@.len() - index,
    {
        if ns[index].number == n && !ns[index].claimed {
            return Some(index);
        }
        index = index + 1;
    }
    None
}

/// Whether the ticket holds `n` as a claimed number.
fn ticket_has_claimed(ticket: &Ticket, n: u8) -> (b: bool)
    ensures
        b == has_claimed(ticket@, n),
{
    let mut k: usize = 0;
    while k < ticket.numbers.len()
        invariant
            k <= ticket.numbers@.len(),
            forall|j: int|
                0 <= j < k ==> !(#[trigger] ticket.numbers@[j].number == n
                    && ticket.numbers@[j].claimed),
        decreases ticket.numbers@.len() - k,
    {
        if ticket.numbers[k].number == n && ticket.numbers[k].claimed {
            assert(ticket@[k as int].number == n);
            return true;
        }
        k = k + 1;
    }
    false
}

/// Whether `v` holds `x`.
pub fn contains_u8(v: &Vec<u8>, x: u8) -> (b: bool)
    ensures
        b == v@.contains(x),
{
    let mut i: usize = 0;
    while i < v.len()
        invariant
            i <= v@.len(),
            forall|j: int| 0 <= j < i ==> v@[j] != x,
        decreases v@.len() - i,
    {
        if v[i] == x {
            return true;
        }
        i = i + 1;
    }
    false
}

impl WinningVerifier {
    /// Checks whether `ticket` wins the prize verified by `self` in `game`.
    pub fn verify(&self, game: &GameSnapshot, user: u128, ticket: &Ticket) -> (r: bool)
        ensures
            r == verify_spec(*self, game@, ticket@),
    {
        let mut i: usize = 0;
        while i < game.winnings.len()
            invariant
                i <= game.winnings@.len(),
                forall|j: int|
                    0 <= j < i ==> !(#[trigger] game.winnings@[j].verify_by == *self
                        && game.winnings@[j].winner is None),
            decreases game.winnings@.len() - i,
        {
            if game.winnings[i].verify_by == *self && game.winnings[i].winner.is_none() {
                assert(winnings_view(game.winnings@)[i as int] == game.winnings@[i as int]@);
                assert(game@.winnings[i as int].verify_by == *self);
                return false;
            }
            i = i + 1;
        }
        assert(!has_open_winning(game@.winnings, *self)) by {
            assert forall|j: int| 0 <= j < game@.winnings.len() implies !(
            #[trigger] game@.winnings[j].verify_by == *self && game@.winnings[j].winner is None) by {
                assert(game@.winnings[j] == game.winnings@[j]@);
            }
        }
        match self {
            WinningVerifier::LoveAtFirstSight => {
                if game.done_numbers.len() != 1 {
                    false
                } else {
                    let first_done = game.done_numbers[0];
                    ticket_has_claimed(ticket, first_done)
                }
            },
            _ => false,
        }
    }
}

impl GameSnapshot {
    /// A snapshot of a game that has not started: nothing drawn, no prizes.
    pub fn blank() -> (r: Self)
        ensures
            r@.done_numbers == Seq::<u8>::empty(),
            !r@.started,
            r@.winnings == Seq::<WinningView>::empty(),
    {
        let r = GameSnapshot { done_numbers: Vec::new(), started: false, winnings: Vec::new() };
        assert(r@.winnings =~= Seq::<WinningView>::empty());
        r
    }

    /// The numbers of the board not drawn yet, in ascending order.
    pub fn non_done(&self) -> (r: Vec<u8>)
        ensures
            is_non_done(r@, self.done_numbers@),
    {
        let mut r: Vec<u8> = Vec::new();
        let mut k: u8 = 1;
        while k <= BOARD_MAX
            invariant
                1 <= k <= BOARD_MAX + 1,
                strictly_increasing(r@),
                forall|i: int| 0 <= i < r@.len() ==> 1 <= #[trigger] r@[i] < k,
                forall|n: u8| n < k ==> (is_available(self.done_numbers@, n) <==> r@.contains(n)),
            decreases BOARD_MAX + 1 - k,
        {
            if !contains_u8(&self.done_numbers, k) {
                let ghost old_r = r@;
                r.push(k);
                assert forall|n: u8| n < k + 1 implies (is_available(self.done_numbers@, n)
                    <==> r@.contains(n)) by {
                    if n < k {
                        if old_r.contains(n) {
                            let j = choose|j: int| 0 <= j < old_r.len() && old_r[j] == n;
                            assert(r@[j] == n);
                        }
                        if r@.contains(n) {
                            let j = choose|j: int| 0 <= j < r@.len() && r@[j] == n;
                            if j < old_r.len() {
                                assert(old_r[j] == n);
                            }
                        }
                    } else {
                        assert(r@[r@.len() - 1] == k);
                    }
                }
            } else {
                assert forall|n: u8| n < k + 1 implies (is_available(self.done_numbers@, n)
                    <==> r@.contains(n)) by {
                    if n == k && r@.contains(n) {
                        let j = choose|j: int| 0 <= j < r@.len() && r@[j] == n;
                        assert(r@[j] < k);
                    }
                }
            }
            k = k + 1;
        }
        assert forall|n: u8| is_available(self.done_numbers@, n) <==> r@.contains(n) by {
            if n > BOARD_MAX && r@.contains(n) {
                let j = choose|j: int| 0 <= j < r@.len() && r@[j] == n;
                assert(r@[j] < k);
            }
        }
        r
    }

    /// Draws the next number: a specific one if it is still available, or
    /// one chosen at random among those still available; a drawn number is
    /// recorded as done.
    pub fn draw_number(&mut self, draw_type: Draw) -> (r: Option<u8>)
        ensures
            draw_outcome(old(self)@, draw_type, r, final(self)@),
    {
        let number: Option<u8> = match draw_type {
            Draw::Random => {
                let nd = self.non_done();
                let mut candidates: Vec<usize> = Vec::new();
                let mut i: usize = 0;
                while i < nd.len()
                    invariant
                        i <= nd@.len(),
                        candidates@.len() == i,
                        forall|j: int| 0 <= j < i ==> #[trigger] candidates@[j] == nd@[j] as usize,
                    decreases nd@.len() - i,
                {
                    candidates.push(nd[i] as usize);
                    i = i + 1;
                }
                let picked = crate::game::random::one_uniform_random_from(candidates);
                match picked {
                    Some(x) => {
                        proof {
                            let j = choose|j: int| 0 <= j < candidates@.len() && candidates@[j] == x;
                            assert(nd@[j] <= BOARD_MAX);
                            assert(nd@.contains(nd@[j]));
                            assert(x as u8 == nd@[j]);
                        }
                        assert(is_available(self.done_numbers@, x as u8));
                        Some(x as u8)
                    },
                    None => {
                        assert forall|n: u8| !is_available(self.done_numbers@, n) by {
                            if is_available(self.done_numbers@, n) {
                                assert(nd@.contains(n));
                            }
                        }
                        None
                    },
                }
            },
            Draw::Specific(num) => {
                let nd = self.non_done();
                if contains_u8(&nd, num) {
                    Some(num)
                } else {
                    None
                }
            },
        };
        assert(match number {
            Some(n) => is_available(old(self)@.done_numbers, n),
            None => true,
        });
        assert(match draw_type {
            Draw::Specific(n) => number == (if is_available(old(self)@.done_numbers, n) {
                Some(n)
            } else {
                None
            }),
            Draw::Random => (number is Some <==> exists|n: u8| is_available(old(self)@.done_numbers, n)),
        });
        if let Some(num) = number {
            self.done_numbers.push(num);
        }
        number
    }

    /// Records `number` as drawn.
    pub fn mark_number_done(&mut self, number: u8)
        ensures
            final(self)@.done_numbers == old(self)@.done_numbers.push(number),
            final(self)@.started == old(self)@.started,
            final(self)@.winnings == old(self)@.winnings,
    {
        self.done_numbers.push(number);
    }

    /// Records `user` as the winner of the first prize called `name`.
    pub fn mark_winner(&mut self, name: String, user: u128)
        requires
            has_winning_named(old(self)@.winnings, name@),
        ensures
            mark_winner_outcome(old(self)@, name@, user, final(self)@),
    {
        let ghost old_ws = self@.winnings;
        let index = first_winning_named(&self.winnings, &name).unwrap();
        assert(old_ws[index as int] == self.winnings@[index as int]@);
        let mut item = self.winnings[index].clone();
        item.winner = Some(user);
        self.winnings.set(index, item);
        assert(is_first_named(old_ws, name@, index as int));
        assert(winnings_view(self.winnings@) =~= old_ws.update(
            index as int,
            won_by(old_ws[index as int], user),
        ));
    }
}

impl Ticket {
    /// Claims the first unclaimed occurrence of `number`; returns whether
    /// there was one.
    pub fn claim_number(&mut self, number: u8) -> (r: bool)
        ensures
            claim_outcome(old(self)@, number, r, final(self)@),
    {
        let found = first_unclaimed_index(&self.numbers, number);
        if let Some(index) = found {
            let item = self.numbers[index];
            let claimed = PositionedNumber {
                row: item.row,
                column: item.column,
                claimed: true,
                number: item.number,
            };
            self.numbers.set(index, claimed);
            assert(self@ =~= old(self)@.update(index as int, claimed_cell(old(self)@[index as int])));
            true
        } else {
            false
        }
    }
}

impl Default for Ticket {
    /// A fresh random ticket.
    fn default() -> (r: Self)
        ensures
            random::valid_ticket(r@),
            exists|rows: Seq<Seq<u8>>, vals: Seq<Seq<u8>>|
                #[trigger] random::valid_row_columns(rows) && #[trigger] random::valid_column_numbers(
                    rows,
                    vals,
                ) && r@ == random::ticket_layout(rows, vals),
            exists|rows: Seq<Seq<u8>>, vals: Seq<Seq<u8>>|
                #[trigger] random::drawn_layout(rows, vals) && r@ == random::ticket_layout(rows, vals),
    {
        Ticket { numbers: get_random_ticket_numbers() }
    }
}

/// The value `id` has the version and variant bits of a random (version 4)
/// UUID: its version nibble is 4 and its variant bits are `10`.
pub open spec fn v4_id(id: u128) -> bool {
    &&& (id >> 76u128) & 15u128 == 4u128
    &&& (id >> 62u128) & 3u128 == 2u128
}

/// A fresh random identifier: the 128-bit value of `uuid::Uuid::new_v4()`.
///
/// The value rests on chance; the contract states only the bits the crate
/// fixes on every outcome: the version nibble is 4 and the variant bits are
/// `10`. Which of the remaining bits come up is left unsaid.
#[verifier::external_body]
pub(crate) fn new_v4_id() -> (r: u128)
    ensures
        v4_id(r),
{
    uuid::Uuid::new_v4().as_u128()
}

impl User {
    /// A user with a fresh random id and a fresh random ticket.
    pub fn new(name: String, user_type: UserType) -> (r: Self)
        ensures
            r@.name == name@,
            r@.user_type == user_type,
            random::valid_ticket(r@.ticket),
            v4_id(r@.id),
    {
        User { name, id: new_v4_id(), ticket: Ticket::default(), user_type }
    }
}

} // verus!
