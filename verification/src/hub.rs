//! All games hosted by the server, and the decisions taken on the requests
//! of a client before and after it has joined a game.

use vstd::prelude::*;

use crate::game::proto::{AnnouncementOutput, Input, Output};
use crate::game::random::valid_ticket;
use crate::game::{User, UserType, UserView};
use crate::instance::{
    Delivery, GameInstance, GameView, game_input_outcome, has_user, ids_distinct, insert_user,
};

verus! {

/// The games of the server.
#[derive(Debug)]
pub struct Hub {
    pub games: Vec<GameInstance>,
}

/// The player a client speaks for once it is in a game.
#[derive(Debug, PartialEq)]
pub struct Session {
    pub game_id: u128,
    pub user_id: u128,
    pub user_name: String,
}

/// The answer to a request made before joining a game: messages for the
/// client, and the session it enters, if any.
#[derive(Debug, PartialEq)]
pub struct LobbyStep {
    pub outputs: Vec<Output>,
    pub session: Option<Session>,
}

/// The models of a sequence of games.
pub open spec fn games_view(gs: Seq<GameInstance>) -> Seq<GameView> {
    gs.map_values(|g: GameInstance| g@)
}

impl View for Hub {
    type V = Seq<GameView>;

    open spec fn view(&self) -> Seq<GameView> {
        games_view(self.games@)
    }
}

/// A game with id `id` is hosted.
pub open spec fn has_game(gs: Seq<GameView>, id: u128) -> bool {
    exists|i: int| 0 <= i < gs.len() && #[trigger] gs[i].id == id
}

/// Every game is well formed and no two games share an id.
pub open spec fn games_wf(gs: Seq<GameView>) -> bool {
    &&& forall|i: int| 0 <= i < gs.len() ==> ids_distinct(#[trigger] gs[i].users)
    &&& forall|i: int, j: int|
        0 <= i < gs.len() && 0 <= j < gs.len() && i != j ==> #[trigger] gs[i].id != #[trigger] gs[j].id
}

/// Replacing a game by a well-formed game with the same id keeps the
/// games well formed.
proof fn lemma_update_keeps_games_wf(gs: Seq<GameView>, i: int, g: GameView)
    requires
        games_wf(gs),
        0 <= i < gs.len(),
        g.id == gs[i].id,
        ids_distinct(g.users),
    ensures
        games_wf(gs.update(i, g)),
{
    let ns = gs.update(i, g);
    assert forall|a: int, b: int|
        0 <= a < ns.len() && 0 <= b < ns.len() && a != b implies #[trigger] ns[a].id != #[trigger] ns[b].id by {
        assert(ns[a].id == gs[a].id);
        assert(ns[b].id == gs[b].id);
    }
    assert forall|a: int| 0 <= a < ns.len() implies ids_distinct(#[trigger] ns[a].users) by {
        if a != i {
            assert(ns[a] == gs[a]);
        }
    }
}

/// The games `gs` as a map from id to game.
pub open spec fn games_by_id(gs: Seq<GameView>) -> Map<u128, GameView> {
    Map::new(
        |id: u128| has_game(gs, id),
        |id: u128| gs[choose|i: int| 0 <= i < gs.len() && #[trigger] gs[i].id == id],
    )
}

/// The games `gs` after `g` is stored under its id.
pub open spec fn insert_game(gs: Seq<GameView>, g: GameView) -> Seq<GameView> {
    if has_game(gs, g.id) {
        gs.update(choose|i: int| 0 <= i < gs.len() && gs[i].id == g.id, g)
    } else {
        gs.push(g)
    }
}

/// `g` is a fresh game hosted by a new player called `name`.
pub open spec fn hosted_game(g: GameView, name: Seq<char>) -> bool {
    &&& g.users.len() == 1
    &&& g.users[0].name == name
    &&& g.users[0].user_type == UserType::Host
    &&& valid_ticket(g.users[0].ticket)
    &&& g.host == g.users[0].id
    &&& g.snapshot.done_numbers.len() == 0
    &&& !g.snapshot.started
    &&& g.snapshot.winnings.len() == 0
}

/// The game `g` after player `u` joined it.
pub open spec fn joined(g: GameView, u: UserView) -> GameView {
    GameView { id: g.id, host: g.host, users: insert_user(g.users, u), snapshot: g.snapshot }
}

/// The session of player `u` in the game `game_id`.
pub open spec fn session_of(s: Option<Session>, game_id: u128, u: UserView) -> bool {
    s matches Some(x) && x.game_id == game_id && x.user_id == u.id && x.user_name@ == u.name
}

/// What `handle_lobby_input` does with `input` on the games `old`.
pub open spec fn lobby_outcome(old: Seq<GameView>, input: Input, r: LobbyStep, new: Seq<GameView>) -> bool {
    match input {
        Input::HostNewGame(h) => exists|g: GameView|
            #[trigger] hosted_game(g, h.name@) && new == insert_game(old, g) && r.outputs@.len() == 1
                && (r.outputs@[0] matches Output::NewGameHosted(o) && o.game_id == g.id && o.user@
                == g.users[0]) && session_of(r.session, g.id, g.users[0]),
        Input::Reconnect(rc) => new == old && if exists|i: int|
            0 <= i < old.len() && #[trigger] old[i].id == rc.game_id && has_user(
                old[i].users,
                rc.user_id,
            ) {
            exists|i: int, j: int|
                0 <= i < old.len() && #[trigger] old[i].id == rc.game_id && 0 <= j
                    < old[i].users.len() && #[trigger] old[i].users[j].id == rc.user_id
                    && r.outputs@.len() == 1 && (r.outputs@[0] matches Output::ReconnectedToGame(o)
                    && o.user@ == old[i].users[j] && o.snapshot@ == old[i].snapshot) && session_of(
                    r.session,
                    rc.game_id,
                    old[i].users[j],
                )
        } else {
            r.outputs@.len() == 0 && r.session is None
        },
        Input::ConnectMeAs(c) => if has_game(old, c.game) {
            exists|i: int, u: UserView|
                0 <= i < old.len() && #[trigger] old[i].id == c.game && #[trigger] u.name == c.name@
                    && u.user_type == UserType::NonHost && valid_ticket(u.ticket) && new
                    == old.update(i, joined(old[i], u)) && r.outputs@.len() == 2 && (
                r.outputs@[0] matches Output::ConnectedToGame(o) && o.user@ == u && o.snapshot@
                    == old[i].snapshot) && (r.outputs@[1] matches Output::Announcement(
                    AnnouncementOutput::NewUserJoined(a),
                ) && a.name@ == c.name@) && session_of(r.session, c.game, u)
        } else {
            new == old && r.outputs@.len() == 1 && (r.outputs@[0] matches Output::NotConnectedToGame(
                o,
            ) && o.reason@ == "Game not found"@) && r.session is None
        },
        _ => new == old && r.outputs@.len() == 0 && r.session is None,
    }
}

/// Where a message goes when a client enters a game: announcements to
/// every player, anything else to the client.
pub open spec fn routed(o: Output) -> Delivery {
    if o is Announcement {
        Delivery::Everyone(o)
    } else {
        Delivery::Sender(o)
    }
}

/// Sends each message where it belongs: announcements to every player,
/// anything else to the client, in the given order.
pub fn route_outputs(outputs: Vec<Output>) -> (r: Vec<Delivery>)
    ensures
        r@ == outputs@.map_values(|o: Output| routed(o)),
{
    let ghost all = outputs@;
    let mut r: Vec<Delivery> = Vec::new();
    let mut rest = outputs;
    while rest.len() > 0
        invariant
            rest@.len() + r@.len() == all.len(),
            rest@ == all.skip(r@.len() as int),
            r@ == all.take(r@.len() as int).map_values(|o: Output| routed(o)),
        decreases rest@.len(),
    {
        let o = rest.remove(0);
        let ghost k = r@.len();
        assert(o == all[k as int]);
        let d = if matches!(o, Output::Announcement(_)) {
            Delivery::Everyone(o)
        } else {
            Delivery::Sender(o)
        };
        r.push(d);
        assert(rest@ =~= all.skip(r@.len() as int));
        assert(r@ =~= all.take(r@.len() as int).map_values(|o: Output| routed(o)));
    }
    assert(all.take(all.len() as int) =~= all);
    r
}

impl Hub {
    /// The position of the game with id `id`, if any.
    fn game_index(&self, id: u128) -> (r: Option<usize>)
        ensures
            r is None <==> !has_game(self@, id),
            r matches Some(i) ==> i < self@.len() && self@[i as int].id == id,
    {
        let mut i: usize = 0;
        while i < self.games.len()
            invariant
                i <= self.games@.len(),
                forall|j: int| 0 <= j < i ==> #[trigger] self@[j].id != id,
            decreases self.games@.len() - i,
        {
            assert(self@[i as int] == self.games@[i as int]@);
            if self.games[i].id == id {
                assert(self@[i as int].id == id);
                return Some(i);
            }
            i = i + 1;
        }
        None
    }

    /// Stores `g` under its id: it replaces the game with the same id, or
    /// is added at the end.
    fn insert_game(&mut self, g: GameInstance)
        requires
            games_wf(old(self)@),
            g.wf(),
        ensures
            games_wf(final(self)@),
            final(self)@ == insert_game(old(self)@, g@),
    {
        let ghost gv = g@;
        let ghost before = self@;
        match self.game_index(g.id) {
            Some(i) => {
                self.games.set(i, g);
                proof {
                    let k = choose|k: int| 0 <= k < before.len() && before[k].id == gv.id;
                    assert(k == i);
                    assert(self@ =~= before.update(i as int, gv));
                }
            },
            None => {
                self.games.push(g);
                assert(self@ =~= before.push(gv));
            },
        }
    }

    /// Hosts a new game for a new player called `host_name`; returns the
    /// game's id and the host.
    pub fn host_new_game(&mut self, host_name: String) -> (r: (u128, User))
        requires
            games_wf(old(self)@),
        ensures
            games_wf(final(self)@),
            exists|g: GameView|
                #[trigger] hosted_game(g, host_name@) && g.id == r.0 && r.1@ == g.users[0]
                    && final(self)@ == insert_game(old(self)@, g),
    {
        let ghost name = host_name@;
        let game = GameInstance::host_new_game(host_name);
        let ghost gv = game@;
        assert(hosted_game(gv, name));
        let game_id = game.id;
        let user = game.users[0].clone();
        assert(gv.users[0] == game.users@[0]@);
        self.insert_game(game);
        (game_id, user)
    }

    /// Decides what a request of a client that is not in a game yet does:
    /// host a game, get back into one, or join one.
    pub fn handle_lobby_input(&mut self, input: Input) -> (r: LobbyStep)
        requires
            games_wf(old(self)@),
        ensures
            games_wf(final(self)@),
            lobby_outcome(old(self)@, input, r, final(self)@),
    {
        let ghost old_games = self@;
        match input {
            Input::HostNewGame(hngi) => {
                let (new_game_id, new_user) = self.host_new_game(hngi.name);
                let session = Session {
                    game_id: new_game_id,
                    user_id: new_user.id,
                    user_name: new_user.name.clone(),
                };
                let mut outputs: Vec<Output> = Vec::new();
                outputs.push(Output::new_game_hosted(new_game_id, new_user));
                LobbyStep { outputs, session: Some(session) }
            },
            Input::Reconnect(rci) => {
                match self.game_index(rci.game_id) {
                    Some(i) => {
                        assert(self@[i as int] == self.games@[i as int]@);
                        match self.games[i].reconnect(rci.user_id) {
                            Some(user) => {
                                let snapshot = self.games[i].snapshot.clone();
                                let session = Session {
                                    game_id: self.games[i].id,
                                    user_id: user.id,
                                    user_name: user.name.clone(),
                                };
                                let mut outputs: Vec<Output> = Vec::new();
                                outputs.push(Output::new_reconnected_to_game(user, snapshot));
                                LobbyStep { outputs, session: Some(session) }
                            },
                            None => {
                                proof {
                                    assert forall|k: int|
                                        0 <= k < old_games.len() && #[trigger] old_games[k].id
                                            == rci.game_id implies !has_user(
                                        old_games[k].users,
                                        rci.user_id,
                                    ) by {
                                        assert(k == i);
                                    }
                                }
                                LobbyStep { outputs: Vec::new(), session: None }
                            },
                        }
                    },
                    None => LobbyStep { outputs: Vec::new(), session: None },
                }
            },
            Input::ConnectMeAs(cmai) => {
                match self.game_index(cmai.game) {
                    Some(i) => {
                        assert(self@[i as int] == self.games@[i as int]@);
                        let snapshot = self.games[i].snapshot.clone();
                        let mut game = self.games.remove(i);
                        let user = game.join(cmai.name);
                        let ghost gv = game@;
                        self.games.insert(i, game);
                        let session = Session {
                            game_id: cmai.game,
                            user_id: user.id,
                            user_name: user.name.clone(),
                        };
                        let joined_name = user.name.clone();
                        let mut outputs: Vec<Output> = Vec::new();
                        outputs.push(Output::connected_to_game(user, snapshot));
                        outputs.push(Output::user_joined(joined_name));
                        proof {
                            assert(self@ =~= old_games.update(i as int, gv));
                            lemma_update_keeps_games_wf(old_games, i as int, gv);
                        }
                        LobbyStep { outputs, session: Some(session) }
                    },
                    None => {
                        let mut outputs: Vec<Output> = Vec::new();
                        outputs.push(Output::connect_me_failed(String::from_str("Game not found")));
                        LobbyStep { outputs, session: None }
                    },
                }
            },
            _ => LobbyStep { outputs: Vec::new(), session: None },
        }
    }

    /// Decides what a request of player `user_id` (called `user_name`) in
    /// the game `game_id` does, and where the answer goes.
    pub fn handle_game_input(&mut self, game_id: u128, user_id: u128, user_name: &String, input: Input) -> (r: Option<Delivery>)
        requires
            games_wf(old(self)@),
            has_game(old(self)@, game_id),
        ensures
            games_wf(final(self)@),
            final(self)@.len() == old(self)@.len(),
            exists|i: int|
                0 <= i < old(self)@.len() && #[trigger] old(self)@[i].id == game_id && final(self)@
                    == old(self)@.update(i, final(self)@[i]) && game_input_outcome(
                    old(self)@[i],
                    user_id,
                    user_name@,
                    input,
                    r,
                    final(self)@[i],
                ),
    {
        let ghost old_games = self@;
        let i = self.game_index(game_id).unwrap();
        let mut game = self.games.remove(i);
        assert(game@ == old_games[i as int]);
        let r = game.handle_game_input(user_id, user_name, input);
        let ghost gv = game@;
        self.games.insert(i, game);
        proof {
            assert(self@ =~= old_games.update(i as int, gv));
            lemma_update_keeps_games_wf(old_games, i as int, gv);
        }
        r
    }
}

} // verus!
