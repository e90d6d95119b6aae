//! The web client's store of what it knows about its game: requests from
//! the connection become actions, and actions change the store.

use vstd::prelude::*;

use crate::game::proto::AnnouncementOutput;
use crate::game::{
    GameSnapshot, PositionedNumber, SnapshotView, User, UserView, Winning, WinningVerifier,
    WinningView, winnings_view,
};

verus! {

/// A change of the store.
#[derive(Debug, PartialEq)]
pub enum Action {
    SetAnnouncements(Vec<AnnouncementOutput>),
    SetConnected(bool),
    SetUser(User),
    SetSnapshot(GameSnapshot),
    AddAnnouncement(AnnouncementOutput),
    ClaimSuccess(Vec<PositionedNumber>),
    Spit,
}

/// What the connection tells the store.
#[derive(Debug, PartialEq)]
pub enum StoreInput {
    Connected,
    NewGameHosted(String, User),
    Reconnected(User, GameSnapshot, Vec<AnnouncementOutput>),
    NewAnnouncement(AnnouncementOutput),
    ConnectedToGame(User, GameSnapshot, Vec<AnnouncementOutput>),
    ClaimSuccess(u8),
    Spit,
}

/// The client's copy of a prize: the prize as the server sent it, and the
/// name of its winner once a winner has been announced.
#[derive(Debug, PartialEq)]
pub struct ClientWinning {
    pub name: String,
    pub verify_by: WinningVerifier,
    pub winner: Option<u128>,
    pub winner_name: Option<String>,
}

/// The client's copy of the game's snapshot.
#[derive(Debug, PartialEq)]
pub struct ClientSnapshot {
    pub done_numbers: Vec<u8>,
    pub started: bool,
    pub winnings: Vec<ClientWinning>,
}

/// Mathematical model of a `ClientWinning`.
pub struct ClientWinningView {
    pub name: Seq<char>,
    pub verify_by: WinningVerifier,
    pub winner: Option<u128>,
    pub winner_name: Option<Seq<char>>,
}

/// Mathematical model of a `ClientSnapshot`.
pub struct ClientSnapshotView {
    pub done_numbers: Seq<u8>,
    pub started: bool,
    pub winnings: Seq<ClientWinningView>,
}

/// The model of an optional name.
pub open spec fn name_view_opt(n: Option<String>) -> Option<Seq<char>> {
    match n {
        Some(x) => Some(x@),
        None => None,
    }
}

impl View for ClientWinning {
    type V = ClientWinningView;

    open spec fn view(&self) -> ClientWinningView {
        ClientWinningView {
            name: self.name@,
            verify_by: self.verify_by,
            winner: self.winner,
            winner_name: name_view_opt(self.winner_name),
        }
    }
}

/// The models of a sequence of client prizes.
pub open spec fn client_winnings_view(ws: Seq<ClientWinning>) -> Seq<ClientWinningView> {
    ws.map_values(|w: ClientWinning| w@)
}

impl View for ClientSnapshot {
    type V = ClientSnapshotView;

    open spec fn view(&self) -> ClientSnapshotView {
        ClientSnapshotView {
            done_numbers: self.done_numbers@,
            started: self.started,
            winnings: client_winnings_view(self.winnings@),
        }
    }
}

/// The client's copy of a prize the server sent: no winner name known yet.
pub open spec fn client_winning_of(w: WinningView) -> ClientWinningView {
    ClientWinningView { name: w.name, verify_by: w.verify_by, winner: w.winner, winner_name: None }
}

/// The client's copies of the prizes the server sent.
pub open spec fn client_winnings_of(ws: Seq<WinningView>) -> Seq<ClientWinningView> {
    ws.map_values(|w: WinningView| client_winning_of(w))
}

/// The client's copy of a snapshot the server sent.
pub open spec fn client_snapshot_of(s: SnapshotView) -> ClientSnapshotView {
    ClientSnapshotView {
        done_numbers: s.done_numbers,
        started: s.started,
        winnings: client_winnings_of(s.winnings),
    }
}

/// The prizes `ws` after `user` was announced as the winner of `win`: every
/// prize called `win` records `user` as its winner, the others stay.
pub open spec fn record_winner(ws: Seq<ClientWinningView>, win: Seq<char>, user: Seq<char>) -> Seq<ClientWinningView> {
    ws.map_values(
        |w: ClientWinningView|
            if w.name == win {
                ClientWinningView {
                    name: w.name,
                    verify_by: w.verify_by,
                    winner: w.winner,
                    winner_name: Some(user),
                }
            } else {
                w
            },
    )
}

/// The client's copies of the prizes `ws`.
pub fn client_winnings(ws: &Vec<Winning>) -> (r: Vec<ClientWinning>)
    ensures
        client_winnings_view(r@) == client_winnings_of(winnings_view(ws@)),
{
    let mut r: Vec<ClientWinning> = Vec::new();
    let mut i: usize = 0;
    while i < ws.len()
        invariant
            i <= ws@.len(),
            r@.len() == i,
            forall|j: int| 0 <= j < i ==> #[trigger] r@[j]@ == client_winning_of(ws@[j]@),
        decreases ws@.len() - i,
    {
        let w = &ws[i];
        r.push(
            ClientWinning {
                name: w.name.clone(),
                verify_by: w.verify_by,
                winner: w.winner,
                winner_name: None,
            },
        );
        i = i + 1;
    }
    assert(client_winnings_view(r@) =~= client_winnings_of(winnings_view(ws@)));
    r
}

/// The client's copy of a snapshot the server sent.
pub fn client_snapshot(gs: GameSnapshot) -> (r: ClientSnapshot)
    ensures
        r@ == client_snapshot_of(gs@),
{
    let winnings = client_winnings(&gs.winnings);
    ClientSnapshot { done_numbers: gs.done_numbers, started: gs.started, winnings }
}

/// What the client knows: whether it is connected, who it plays as, its
/// game and its copy of that game's snapshot, and the announcements
/// received.
#[derive(Debug)]
pub struct TambolaStore {
    pub ws_connected: bool,
    pub user: Option<User>,
    pub game: Option<String>,
    pub game_snapshot: Option<ClientSnapshot>,
    pub announcements: Vec<AnnouncementOutput>,
}

/// The model of an optional user.
pub open spec fn user_view_opt(u: Option<User>) -> Option<UserView> {
    match u {
        Some(x) => Some(x@),
        None => None,
    }
}

/// The model of an optional snapshot.
pub open spec fn snapshot_view_opt(s: Option<ClientSnapshot>) -> Option<ClientSnapshotView> {
    match s {
        Some(x) => Some(x@),
        None => None,
    }
}

/// The ticket `ns` with every cell holding `n` claimed.
pub open spec fn claim_all(ns: Seq<PositionedNumber>, n: u8) -> Seq<PositionedNumber> {
    ns.map_values(
        |p: PositionedNumber|
            if p.number == n {
                PositionedNumber { number: p.number, row: p.row, column: p.column, claimed: true }
            } else {
                p
            },
    )
}

/// The snapshot `s` with `n` drawn.
pub open spec fn with_number(s: ClientSnapshotView, n: u8) -> ClientSnapshotView {
    ClientSnapshotView { done_numbers: s.done_numbers.push(n), started: s.started, winnings: s.winnings }
}

/// The user `u` holding the ticket cells `ns`.
pub open spec fn with_numbers(u: UserView, ns: Seq<PositionedNumber>) -> UserView {
    UserView { id: u.id, name: u.name, user_type: u.user_type, ticket: ns }
}

/// The actions `handle_input` returns for what the connection reports on
/// the store `s`: each report becomes the actions that record it, and a
/// number claimed becomes the player's ticket with that number claimed.
pub open spec fn store_input_actions(s: TambolaStore, msg: StoreInput, r: Seq<Action>) -> bool {
    match msg {
        StoreInput::Connected => r =~= seq![Action::SetConnected(true)],
        StoreInput::NewGameHosted(_, user) => r =~= seq![Action::SetUser(user)],
        StoreInput::Reconnected(user, gss, anc) => r =~= seq![
            Action::SetSnapshot(gss),
            Action::SetAnnouncements(anc),
            Action::SetUser(user),
        ],
        StoreInput::NewAnnouncement(an) => r =~= seq![Action::AddAnnouncement(an)],
        StoreInput::Spit => r =~= seq![Action::Spit],
        StoreInput::ConnectedToGame(user, gss, anc) => r =~= seq![
            Action::SetSnapshot(gss),
            Action::SetAnnouncements(anc),
            Action::SetUser(user),
        ],
        StoreInput::ClaimSuccess(num) => r.len() == 1 && (r[0] matches Action::ClaimSuccess(
            ns,
        ) && ns@ == claim_all(s.user->0@.ticket, num)),
    }
}

/// What `reduce` does with the action `msg` on the store `old`, giving
/// `new`: the game stays, and the action changes only what it names.
pub open spec fn reduce_outcome(old: TambolaStore, msg: Action, new: TambolaStore) -> bool {
    &&& new.game == old.game
    &&& match msg {
        Action::SetConnected(v) => new.ws_connected == v
            && new.user == old.user
            && new.game_snapshot == old.game_snapshot
            && new.announcements == old.announcements,
        Action::SetUser(u) => new.user == Some(u)
            && new.ws_connected == old.ws_connected
            && new.game_snapshot == old.game_snapshot
            && new.announcements == old.announcements,
        Action::SetSnapshot(gs) => snapshot_view_opt(new.game_snapshot) == Some(client_snapshot_of(gs@))
            && new.ws_connected == old.ws_connected
            && new.user == old.user
            && new.announcements == old.announcements,
        Action::Spit => new.ws_connected == old.ws_connected
            && new.user == old.user
            && new.game_snapshot == old.game_snapshot
            && new.announcements == old.announcements,
        Action::SetAnnouncements(anc) => new.announcements == anc
            && new.ws_connected == old.ws_connected
            && new.user == old.user
            && new.game_snapshot == old.game_snapshot,
        Action::AddAnnouncement(an) => new.announcements@ == old.announcements@.push(an)
            && new.ws_connected == old.ws_connected
            && new.user == old.user
            && match an {
                AnnouncementOutput::GameStarted(gsa) => snapshot_view_opt(new.game_snapshot)
                    == Some(ClientSnapshotView {
                        done_numbers: Seq::<u8>::empty(),
                        started: true,
                        winnings: client_winnings_of(winnings_view(gsa.winnings@)),
                    }),
                AnnouncementOutput::NewNumber(nna) => snapshot_view_opt(new.game_snapshot)
                    == match snapshot_view_opt(old.game_snapshot) {
                        Some(s) => Some(with_number(s, nna.number)),
                        None => None,
                    },
                AnnouncementOutput::NewWinner(nwa) => snapshot_view_opt(new.game_snapshot)
                    == Some(ClientSnapshotView {
                        done_numbers: old.game_snapshot->0@.done_numbers,
                        started: true,
                        winnings: record_winner(
                            old.game_snapshot->0@.winnings,
                            nwa.win_name@,
                            nwa.user_name@,
                        ),
                    }),
                _ => new.game_snapshot == old.game_snapshot,
            },
        Action::ClaimSuccess(numbers) => user_view_opt(new.user) == match user_view_opt(old.user) {
                Some(u) => Some(with_numbers(u, numbers@)),
                None => None,
            }
            && new.ws_connected == old.ws_connected
            && new.game_snapshot == old.game_snapshot
            && new.announcements == old.announcements,
    }
}

impl TambolaStore {
    /// A store that knows nothing yet.
    pub fn new() -> (r: Self)
        ensures
            !r.ws_connected,
            r.user is None,
            r.game is None,
            r.game_snapshot is None,
            r.announcements@.len() == 0,
    {
        TambolaStore {
            ws_connected: false,
            user: None,
            game: None,
            game_snapshot: None,
            announcements: Vec::new(),
        }
    }

    /// The actions to apply, in order, for what the connection reports.
    pub fn handle_input(&self, msg: StoreInput) -> (r: Vec<Action>)
        requires
            msg is ClaimSuccess ==> self.user is Some,
        ensures
            store_input_actions(*self, msg, r@),
    {
        let mut r: Vec<Action> = Vec::new();
        match msg {
            StoreInput::Connected => {
                r.push(Action::SetConnected(true));
            },
            StoreInput::NewGameHosted(_game_id, user) => {
                r.push(Action::SetUser(user));
            },
            StoreInput::Reconnected(user, gss, anc) => {
                r.push(Action::SetSnapshot(gss));
                r.push(Action::SetAnnouncements(anc));
                r.push(Action::SetUser(user));
            },
            StoreInput::NewAnnouncement(an) => {
                r.push(Action::AddAnnouncement(an));
            },
            StoreInput::Spit => {
                r.push(Action::Spit);
            },
            StoreInput::ConnectedToGame(user, gss, anc) => {
                r.push(Action::SetSnapshot(gss));
                r.push(Action::SetAnnouncements(anc));
                r.push(Action::SetUser(user));
            },
            StoreInput::ClaimSuccess(num) => {
                let user = self.user.as_ref().unwrap();
                let ghost old_ns = user.ticket.numbers@;
                let mut new_numbers: Vec<PositionedNumber> = Vec::new();
                let mut i: usize = 0;
                while i < user.ticket.numbers.len()
                    invariant
                        i <= old_ns.len(),
                        old_ns == user.ticket.numbers@,
                        new_numbers@ == claim_all(old_ns.take(i as int), num),
                    decreases old_ns.len() - i,
                {
                    let pn = user.ticket.numbers[i];
                    let next = if pn.number == num {
                        PositionedNumber { number: pn.number, row: pn.row, column: pn.column, claimed: true }
                    } else {
                        pn
                    };
                    new_numbers.push(next);
                    i = i + 1;
                    assert(new_numbers@ =~= claim_all(old_ns.take(i as int), num));
                }
                assert(old_ns.take(old_ns.len() as int) =~= old_ns);
                r.push(Action::ClaimSuccess(new_numbers));
            },
        }
        r
    }
}

/// The prizes `ws` after `user_name` was announced as the winner of
/// `win_name`.
fn recorded_winner(ws: Vec<ClientWinning>, win_name: &String, user_name: &String) -> (r: Vec<ClientWinning>)
    ensures
        client_winnings_view(r@) == record_winner(client_winnings_view(ws@), win_name@, user_name@),
{
    let ghost all = client_winnings_view(ws@);
    let mut rest = ws;
    let mut r: Vec<ClientWinning> = Vec::new();
    while rest.len() > 0
        invariant
            rest@.len() + r@.len() == all.len(),
            client_winnings_view(rest@) == all.skip(r@.len() as int),
            client_winnings_view(r@) == record_winner(all.take(r@.len() as int), win_name@, user_name@),
        decreases rest@.len(),
    {
        let ghost k = r@.len() as int;
        let ghost before = rest@;
        let mut w = rest.remove(0);
        assert(w@ == client_winnings_view(before)[0]);
        assert(w@ == all[k]);
        if w.name == *win_name {
            w.winner_name = Some(user_name.clone());
        }
        assert(w@ == record_winner(all.take(k + 1), win_name@, user_name@)[k]);
        let ghost before_r = r@;
        r.push(w);
        assert forall|j: int| 0 <= j < r@.len() implies client_winnings_view(r@)[j] == record_winner(
            all.take(r@.len() as int),
            win_name@,
            user_name@,
        )[j] by {
            if j < k {
                assert(r@[j] == before_r[j]);
                assert(client_winnings_view(before_r)[j] == record_winner(all.take(k), win_name@, user_name@)[j]);
                assert(all.take(k)[j] == all.take(k + 1)[j]);
            }
        }
        assert(client_winnings_view(rest@) =~= all.skip(r@.len() as int)) by {
            assert forall|j: int| 0 <= j < rest@.len() implies client_winnings_view(rest@)[j] == all.skip(r@.len() as int)[j] by {
                assert(rest@[j] == before[j + 1]);
                assert(client_winnings_view(before)[j + 1] == all.skip(k)[j + 1]);
            }
        }
        assert(client_winnings_view(r@) =~= record_winner(all.take(r@.len() as int), win_name@, user_name@));
    }
    assert(all.take(all.len() as int) =~= all);
    r
}

impl TambolaStore {
    /// Applies an action to the store. A snapshot from the server becomes
    /// the client's copy; an announced winner's name is recorded on every
    /// prize of the announced name.
    pub fn reduce(&mut self, msg: Action)
        requires
            msg matches Action::AddAnnouncement(AnnouncementOutput::NewWinner(_)) ==> old(self).game_snapshot is Some,
        ensures
            reduce_outcome(*old(self), msg, *final(self)),
    {
        match msg {
            Action::SetConnected(val) => {
                self.ws_connected = val;
            },
            Action::SetUser(user) => {
                self.user = Some(user);
            },
            Action::SetSnapshot(sn) => {
                self.game_snapshot = Some(client_snapshot(sn));
            },
            Action::Spit => {},
            Action::SetAnnouncements(anc) => {
                self.announcements = anc;
            },
            Action::AddAnnouncement(an) => {
                match &an {
                    AnnouncementOutput::GameStarted(gsa) => {
                        let winnings = client_winnings(&gsa.winnings);
                        let started = ClientSnapshot { started: true, done_numbers: Vec::new(), winnings };
                        assert(started@.done_numbers =~= Seq::<u8>::empty());
                        self.game_snapshot = Some(started);
                    },
                    AnnouncementOutput::NewNumber(nna) => {
                        match self.game_snapshot.take() {
                            Some(mut gs) => {
                                gs.done_numbers.push(nna.number);
                                self.game_snapshot = Some(gs);
                            },
                            None => {},
                        }
                    },
                    AnnouncementOutput::NewWinner(nwa) => {
                        let gs = self.game_snapshot.take().unwrap();
                        let winnings = recorded_winner(gs.winnings, &nwa.win_name, &nwa.user_name);
                        self.game_snapshot = Some(
                            ClientSnapshot { started: true, done_numbers: gs.done_numbers, winnings },
                        );
                    },
                    _ => {},
                }
                self.announcements.push(an);
            },
            Action::ClaimSuccess(numbers) => {
                match self.user.take() {
                    Some(mut user) => {
                        user.ticket.numbers = numbers;
                        self.user = Some(user);
                    },
                    None => {},
                }
            },
        }
    }
}

} // verus!
