//! The state of one hosted game on the server, and the decisions taken on
//! each request of its players.

use vstd::prelude::*;

use crate::game::proto::{
    AnnouncementOutput, ClaimNumberFailureOutput, ClaimNumberSuccessOutput, Input,
    NewNumberAnnouncement, Output,
};
use crate::game::random::valid_ticket;
use crate::game::{
    Draw, GameSnapshot, PositionedNumber, SnapshotView, Ticket, User, UserType, UserView, Winner, WinnerView,
    Winning, WinningView, claim_outcome, draw_outcome, has_winning_named, is_first_named,
    clone_winnings, first_winning_named, mark_winner_outcome, new_v4_id, v4_id, verify_spec, winnings_view,
};

verus! {

/// One hosted game: its id, its host's id, its players and its snapshot.
#[derive(Debug)]
pub struct GameInstance {
    pub id: u128,
    pub host: u128,
    pub users: Vec<User>,
    pub snapshot: GameSnapshot,
}

/// Mathematical model of a `GameInstance`.
pub struct GameView {
    pub id: u128,
    pub host: u128,
    pub users: Seq<UserView>,
    pub snapshot: SnapshotView,
}

/// The models of a sequence of users.
pub open spec fn users_view(us: Seq<User>) -> Seq<UserView> {
    us.map_values(|u: User| u@)
}

impl View for GameInstance {
    type V = GameView;

    open spec fn view(&self) -> GameView {
        GameView {
            id: self.id,
            host: self.host,
            users: users_view(self.users@),
            snapshot: self.snapshot@,
        }
    }
}

/// No two players share an id.
pub open spec fn ids_distinct(us: Seq<UserView>) -> bool {
    forall|i: int, j: int|
        0 <= i < us.len() && 0 <= j < us.len() && i != j ==> #[trigger] us[i].id != #[trigger] us[j].id
}

/// A player with id `id` is in the game.
pub open spec fn has_user(us: Seq<UserView>, id: u128) -> bool {
    exists|i: int| 0 <= i < us.len() && #[trigger] us[i].id == id
}

/// The players `us` as a map from id to player.
pub open spec fn users_by_id(us: Seq<UserView>) -> Map<u128, UserView> {
    Map::new(
        |id: u128| has_user(us, id),
        |id: u128| us[choose|i: int| 0 <= i < us.len() && #[trigger] us[i].id == id],
    )
}

/// The players `us` after `u` is stored under its id: it replaces the
/// player with the same id, or joins at the end.
pub open spec fn insert_user(us: Seq<UserView>, u: UserView) -> Seq<UserView> {
    if has_user(us, u.id) {
        us.update(choose|i: int| 0 <= i < us.len() && us[i].id == u.id, u)
    } else {
        us.push(u)
    }
}

/// The prizes `ws` with no winner recorded.
pub open spec fn cleared_winnings(ws: Seq<WinningView>) -> Seq<WinningView> {
    ws.map_values(|w: WinningView| WinningView { name: w.name, verify_by: w.verify_by, winner: None })
}

/// The player model `u` holding the ticket `t`.
pub open spec fn with_ticket(u: UserView, t: Seq<PositionedNumber>) -> UserView {
    UserView { id: u.id, name: u.name, user_type: u.user_type, ticket: t }
}

/// The claim of player `user` on the prize called `name` succeeds: the
/// game has started, the player is in it, a prize has that name, and the
/// verifier of the first such prize accepts the player's ticket.
pub open spec fn win_claim_ok(g: GameView, user: u128, name: Seq<char>) -> bool {
    &&& g.snapshot.started
    &&& exists|j: int| 0 <= j < g.users.len() && #[trigger] g.users[j].id == user && exists|i: int|
        is_first_named(g.snapshot.winnings, name, i) && verify_spec(
            g.snapshot.winnings[i].verify_by,
            g.snapshot,
            g.users[j].ticket,
        )
}

/// What `choose_winnings_and_start` does: only when `user` equals the
/// game's id, the prizes become `winnings` with no winners and the game
/// starts; the result says whether that happened.
pub open spec fn start_outcome(old: GameView, user: u128, winnings: Seq<WinningView>, r: bool, new: GameView) -> bool {
    &&& r == (old.id == user)
    &&& new.id == old.id
    &&& new.host == old.host
    &&& new.users == old.users
    &&& new.snapshot.done_numbers == old.snapshot.done_numbers
    &&& r ==> new.snapshot.started && new.snapshot.winnings == cleared_winnings(winnings)
    &&& !r ==> new.snapshot == old.snapshot
}

/// What `claim_number` does: in a started game, the player's ticket goes
/// through `Ticket::claim_number`; otherwise nothing changes and the claim
/// fails.
pub open spec fn game_claim_outcome(old: GameView, user: u128, number: u8, r: bool, new: GameView) -> bool {
    &&& new.id == old.id
    &&& new.host == old.host
    &&& new.snapshot == old.snapshot
    &&& !(old.snapshot.started && has_user(old.users, user)) ==> !r && new.users == old.users
    &&& (old.snapshot.started && has_user(old.users, user)) ==> exists|i: int|
        0 <= i < old.users.len() && #[trigger] old.users[i].id == user && new.users.len()
            == old.users.len() && claim_outcome(old.users[i].ticket, number, r, new.users[i].ticket)
            && new.users == old.users.update(i, with_ticket(old.users[i], new.users[i].ticket))
}

/// What `draw` does: the host draws through `GameSnapshot::draw_number`;
/// anyone else draws nothing.
pub open spec fn game_draw_outcome(old: GameView, user: u128, draw: Draw, r: Option<u8>, new: GameView) -> bool {
    &&& new.id == old.id
    &&& new.host == old.host
    &&& new.users == old.users
    &&& user == old.host ==> draw_outcome(old.snapshot, draw, r, new.snapshot)
    &&& user != old.host ==> r is None && new.snapshot == old.snapshot
}

/// What `verify_and_mark_win` does: when the claim succeeds the player
/// becomes the winner of the first prize of that name and is announced
/// with their name and ticket; otherwise nothing changes.
pub open spec fn win_outcome(old: GameView, user: u128, name: Seq<char>, r: Option<WinnerView>, new: GameView) -> bool {
    &&& new.id == old.id
    &&& new.host == old.host
    &&& new.users == old.users
    &&& r is Some <==> win_claim_ok(old, user, name)
    &&& r is None ==> new.snapshot == old.snapshot
    &&& r matches Some(w) ==> mark_winner_outcome(old.snapshot, name, user, new.snapshot)
        && exists|j: int|
        0 <= j < old.users.len() && #[trigger] old.users[j].id == user && w == (WinnerView {
            user: old.users[j].name,
            win_name: name,
            ticket: old.users[j].ticket,
        })
}

/// The model of an optional winner.
pub open spec fn winner_view_opt(r: Option<Winner>) -> Option<WinnerView> {
    match r {
        Some(w) => Some(w@),
        None => None,
    }
}

/// Where the answer to a player's request in a running game goes: to every
/// player of the game, or back to the player who asked.
#[derive(Debug, PartialEq)]
pub enum Delivery {
    Everyone(Output),
    Sender(Output),
}

/// What `handle_game_input` does with the request `input` of the player
/// `user_id` called `user_name`: the effect on the game, and the answer.
pub open spec fn game_input_outcome(
    old: GameView,
    user_id: u128,
    user_name: Seq<char>,
    input: Input,
    r: Option<Delivery>,
    new: GameView,
) -> bool {
    match input {
        Input::ConfigureAndStart(csi) => exists|s: bool|
            #[trigger] start_outcome(old, user_id, winnings_view(csi.winnings@), s, new) && (r is Some
                <==> s) && (r matches Some(d) ==> (d matches Delivery::Everyone(
                Output::Announcement(AnnouncementOutput::GameStarted(g)),
            ) && winnings_view(g.winnings@) == winnings_view(csi.winnings@))),
        Input::DrawNumber(dni) => exists|n: Option<u8>|
            #[trigger] game_draw_outcome(old, user_id, dni.draw, n, new) && r == match n {
                Some(k) => Some(
                    Delivery::Everyone(
                        Output::Announcement(
                            AnnouncementOutput::NewNumber(NewNumberAnnouncement { number: k }),
                        ),
                    ),
                ),
                None => None,
            },
        Input::ClaimNumber(cni) => exists|b: bool|
            #[trigger] game_claim_outcome(old, user_id, cni.number, b, new) && r == Some(
                if b {
                    Delivery::Sender(
                        Output::ClaimNumberSuccess(ClaimNumberSuccessOutput { number: cni.number }),
                    )
                } else {
                    Delivery::Sender(
                        Output::ClaimNumberFailure(ClaimNumberFailureOutput { number: cni.number }),
                    )
                },
            ),
        Input::SendMessage(smi) => new == old && (r matches Some(
            Delivery::Everyone(Output::Announcement(AnnouncementOutput::NewMessage(m))),
        ) && m.user@ == user_name && m.message@ == smi.message@),
        Input::ClaimWin(cwi) => exists|w: Option<WinnerView>|
            #[trigger] win_outcome(old, user_id, cwi.win_name@, w, new) && (r is Some <==> w is Some)
                && (r matches Some(d) ==> (d matches Delivery::Everyone(
                Output::Announcement(AnnouncementOutput::NewWinner(a)),
            ) && w == Some(
                WinnerView { user: a.user_name@, win_name: a.win_name@, ticket: a.ticket@ },
            ))),
        _ => new == old && r is None,
    }
}

impl GameInstance {
    /// The invariant of a game: player ids are unique.
    pub open spec fn wf(&self) -> bool {
        ids_distinct(self@.users)
    }

    /// A new game with a fresh random id, hosted by a new player called
    /// `host_name`, nothing drawn and no prizes yet.
    pub fn host_new_game(host_name: String) -> (r: Self)
        ensures
            r.wf(),
            r@.users.len() == 1,
            r@.users[0].name == host_name@,
            r@.users[0].user_type == UserType::Host,
            valid_ticket(r@.users[0].ticket),
            r@.host == r@.users[0].id,
            r@.snapshot.done_numbers.len() == 0,
            !r@.snapshot.started,
            r@.snapshot.winnings.len() == 0,
            v4_id(r@.id),
            v4_id(r@.host),
    {
        let game_id = new_v4_id();
        let host_user = User::new(host_name, UserType::Host);
        let host = host_user.id;
        let mut users: Vec<User> = Vec::new();
        users.push(host_user);
        let r = GameInstance { id: game_id, host, users, snapshot: GameSnapshot::blank() };
        assert(r@.users[0] == r.users@[0]@);
        r
    }

    /// The position of the player with id `id`, if any.
    fn user_index(&self, id: u128) -> (r: Option<usize>)
        ensures
            r is None <==> !has_user(self@.users, id),
            r matches Some(i) ==> i < self@.users.len() && self@.users[i as int].id == id,
    {
        let mut i: usize = 0;
        while i < self.users.len()
            invariant
                i <= self.users@.len(),
                forall|j: int| 0 <= j < i ==> #[trigger] self@.users[j].id != id,
            decreases self.users@.len() - i,
        {
            assert(self@.users[i as int] == self.users@[i as int]@);
            if self.users[i].id == id {
                assert(self@.users[i as int].id == id);
                return Some(i);
            }
            i = i + 1;
        }
        None
    }

    /// The player with id `user_id`, for a client that reconnects.
    pub fn reconnect(&self, user_id: u128) -> (r: Option<User>)
        ensures
            r is Some <==> has_user(self@.users, user_id),
            r matches Some(u) ==> exists|i: int|
                0 <= i < self@.users.len() && #[trigger] self@.users[i].id == user_id && u@
                    == self@.users[i],
    {
        match self.user_index(user_id) {
            Some(i) => {
                let u = self.users[i].clone();
                assert(self@.users[i as int] == self.users@[i as int]@);
                Some(u)
            },
            None => None,
        }
    }

    /// Sets the prizes, with no winners, and starts the game; done only
    /// when `user` equals the game's id.
    pub fn choose_winnings_and_start(&mut self, user: u128, winnings: Vec<Winning>) -> (r: bool)
        ensures
            start_outcome(old(self)@, user, winnings_view(winnings@), r, final(self)@),
    {
        if self.id == user {
            let mut cleared: Vec<Winning> = Vec::new();
            let mut i: usize = 0;
            while i < winnings.len()
                invariant
                    i <= winnings@.len(),
                    cleared@.len() == i,
                    forall|j: int|
                        0 <= j < i ==> #[trigger] cleared@[j]@ == (WinningView {
                            name: winnings@[j]@.name,
                            verify_by: winnings@[j]@.verify_by,
                            winner: None,
                        }),
                decreases winnings@.len() - i,
            {
                let mut winning = winnings[i].clone();
                winning.winner = None;
                cleared.push(winning);
                i = i + 1;
            }
            self.snapshot.winnings = cleared;
            self.snapshot.started = true;
            assert(self@.snapshot.winnings =~= cleared_winnings(winnings_view(winnings@)));
            true
        } else {
            false
        }
    }

    /// Whether the game has started.
    pub fn is_game_started(&self) -> (r: bool)
        ensures
            r == self@.snapshot.started,
    {
        self.snapshot.started
    }

    /// Player `user` claims `number` on their ticket; possible only in a
    /// started game.
    pub fn claim_number(&mut self, user: u128, number: u8) -> (r: bool)
        requires
            old(self).wf(),
        ensures
            final(self).wf(),
            game_claim_outcome(old(self)@, user, number, r, final(self)@),
    {
        if self.is_game_started() {
            match self.user_index(user) {
                Some(i) => {
                    let ghost before = self@.users;
                    let mut u = self.users[i].clone();
                    let r = u.ticket.claim_number(number);
                    self.users.set(i, u);
                    proof {
                        assert(before[i as int] == old(self).users@[i as int]@);
                        assert(self@.users =~= before.update(i as int, with_ticket(before[i as int], self@.users[i as int].ticket)));
                    }
                    r
                },
                None => false,
            }
        } else {
            false
        }
    }

    /// The host draws a number; anyone else draws nothing.
    pub fn draw(&mut self, user: u128, draw: Draw) -> (r: Option<u8>)
        ensures
            game_draw_outcome(old(self)@, user, draw, r, final(self)@),
    {
        if user == self.host {
            self.snapshot.draw_number(draw)
        } else {
            None
        }
    }

    /// Stores `u` under its id: it replaces the player with the same id, or
    /// joins at the end.
    fn insert_user(&mut self, u: User)
        requires
            old(self).wf(),
        ensures
            final(self).wf(),
            final(self)@.id == old(self)@.id,
            final(self)@.host == old(self)@.host,
            final(self)@.snapshot == old(self)@.snapshot,
            final(self)@.users == insert_user(old(self)@.users, u@),
    {
        let ghost uv = u@;
        match self.user_index(u.id) {
            Some(i) => {
                let ghost before = self@.users;
                self.users.set(i, u);
                proof {
                    let k = choose|k: int| 0 <= k < before.len() && before[k].id == uv.id;
                    assert(k == i);
                    assert(self@.users =~= before.update(i as int, uv));
                }
            },
            None => {
                let ghost before = self@.users;
                self.users.push(u);
                assert(self@.users =~= before.push(uv));
            },
        }
    }

    /// A new player called `name` joins with a fresh random id and a fresh
    /// random ticket.
    pub fn join(&mut self, name: String) -> (r: User)
        requires
            old(self).wf(),
        ensures
            final(self).wf(),
            r@.name == name@,
            r@.user_type == UserType::NonHost,
            valid_ticket(r@.ticket),
            v4_id(r@.id),
            final(self)@.id == old(self)@.id,
            final(self)@.host == old(self)@.host,
            final(self)@.snapshot == old(self)@.snapshot,
            final(self)@.users == insert_user(old(self)@.users, r@),
    {
        let user_id = new_v4_id();
        let user = User {
            id: user_id,
            name: name,
            user_type: UserType::NonHost,
            ticket: Ticket::default(),
        };
        let copy = user.clone();
        self.insert_user(copy);
        user
    }

    /// Player `user` claims the prize called `win_name`: when the game has
    /// started and the first prize of that name accepts the player's
    /// ticket, the player is recorded as its winner and announced.
    pub fn verify_and_mark_win(&mut self, user: u128, win_name: String) -> (r: Option<Winner>)
        requires
            old(self).wf(),
        ensures
            final(self).wf(),
            win_outcome(old(self)@, user, win_name@, winner_view_opt(r), final(self)@),
    {
        if !self.is_game_started() {
            return None;
        }
        let opt_win = first_winning_named(&self.snapshot.winnings, &win_name);
        let opt_user = self.user_index(user);
        match (opt_user, opt_win) {
            (Some(j), Some(i)) => {
                let ghost g = self@;
                assert(g.users[j as int] == self.users@[j as int]@);
                assert(g.snapshot.winnings[i as int] == self.snapshot.winnings@[i as int]@);
                let user_name = self.users[j].name.clone();
                let ticket = self.users[j].ticket.clone();
                let verifier = self.snapshot.winnings[i].verify_by;
                if verifier.verify(&self.snapshot, user, &ticket) {
                    let marked_name = win_name.clone();
                    self.snapshot.mark_winner(marked_name, user);
                    Some(Winner { user: user_name, win_name, ticket })
                } else {
                    proof {
                        assert forall|jj: int, ii: int|
                            0 <= jj < g.users.len() && g.users[jj].id == user && is_first_named(
                                g.snapshot.winnings,
                                win_name@,
                                ii,
                            ) implies !verify_spec(
                            g.snapshot.winnings[ii].verify_by,
                            g.snapshot,
                            g.users[jj].ticket,
                        ) by {
                            assert(jj == j);
                            assert(ii == i);
                        }
                    }
                    None
                }
            },
            _ => {
                proof {
                    if opt_user is Some {
                        assert forall|ii: int| !is_first_named(self@.snapshot.winnings, win_name@, ii) by {
                            if is_first_named(self@.snapshot.winnings, win_name@, ii) {
                                assert(has_winning_named(self@.snapshot.winnings, win_name@));
                            }
                        }
                    }
                }
                None
            },
        }
    }

    /// Records `number` as drawn, in a started game only.
    pub fn mark_number_done(&mut self, number: u8) -> (r: bool)
        ensures
            r == old(self)@.snapshot.started,
            final(self)@.id == old(self)@.id,
            final(self)@.host == old(self)@.host,
            final(self)@.users == old(self)@.users,
            final(self)@.snapshot.started == old(self)@.snapshot.started,
            final(self)@.snapshot.winnings == old(self)@.snapshot.winnings,
            r ==> final(self)@.snapshot.done_numbers == old(self)@.snapshot.done_numbers.push(number),
            !r ==> final(self)@.snapshot.done_numbers == old(self)@.snapshot.done_numbers,
    {
        if self.is_game_started() {
            self.snapshot.mark_number_done(number);
            true
        } else {
            false
        }
    }
}

impl GameInstance {
    /// Decides what a request of the player `user_id` (called `user_name`)
    /// in a running game does, and where the answer goes.
    pub fn handle_game_input(&mut self, user_id: u128, user_name: &String, input: Input) -> (r: Option<Delivery>)
        requires
            old(self).wf(),
        ensures
            final(self).wf(),
            game_input_outcome(old(self)@, user_id, user_name@, input, r, final(self)@),
    {
        match input {
            Input::ConfigureAndStart(csi) => {
                let copy = clone_winnings(&csi.winnings);
                let started = self.choose_winnings_and_start(user_id, copy);
                if started {
                    let announced = clone_winnings(&csi.winnings);
                    Some(Delivery::Everyone(Output::game_started(announced)))
                } else {
                    None
                }
            },
            Input::DrawNumber(dni) => {
                let drawn = self.draw(user_id, dni.draw);
                match drawn {
                    Some(num) => Some(Delivery::Everyone(Output::new_number(num))),
                    None => None,
                }
            },
            Input::ClaimNumber(cni) => {
                let claimed = self.claim_number(user_id, cni.number);
                if claimed {
                    Some(Delivery::Sender(Output::claim_number_success(cni.number)))
                } else {
                    Some(
                        Delivery::Sender(
                            Output::ClaimNumberFailure(ClaimNumberFailureOutput { number: cni.number }),
                        ),
                    )
                }
            },
            Input::SendMessage(smi) => {
                Some(Delivery::Everyone(Output::new_message(user_name.clone(), smi.message)))
            },
            Input::ClaimWin(cwi) => {
                let result = self.verify_and_mark_win(user_id, cwi.win_name);
                match result {
                    Some(winner) => Some(
                        Delivery::Everyone(
                            Output::new_winner(winner.win_name, winner.user, winner.ticket),
                        ),
                    ),
                    None => None,
                }
            },
            _ => None,
        }
    }
}

} // verus!
