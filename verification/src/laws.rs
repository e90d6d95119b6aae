//! Properties of the game that span several operations.

use vstd::prelude::*;

use crate::counter::{Action, Request, action_for};
use crate::ws_api::{Command, Effect, WSApi, connect_outcome, send_outcome, server_effects};
use crate::store::{
    Action as StoreAction, StoreInput, TambolaStore, claim_all, reduce_outcome, snapshot_view_opt,
    store_input_actions, user_view_opt,
};
use crate::game::random::{
    column_low, drawn_column, drawn_row, lemma_selection_can_hold, rows_with, rows_with_below, selection,
    valid_cell, valid_picks, valid_ticket,
};
use crate::game::{
    BOARD_MAX, Draw, PositionedNumber, SnapshotView, UserView, WinningVerifier, claim_outcome,
    draw_outcome, has_open_winning, has_unclaimed, is_available, is_first_unclaimed,
    valid_done, verify_spec,
};
use crate::game::proto::{
    AnnouncementOutput, ClaimWinInput, ConnectMeAsInput, DrawNumberInput, Input, Output, ReconnectInput,
};
use crate::hub::{LobbyStep, games_by_id, games_wf, has_game, insert_game, joined, lobby_outcome};
use crate::instance::{
    Delivery, GameView, game_input_outcome, has_user, ids_distinct, insert_user, start_outcome,
    users_by_id, win_claim_ok, win_outcome,
};

verus! {

/// Drawing keeps the board sound: if no number was drawn twice and all lie
/// on the board, the same holds after any draw.
pub proof fn draw_keeps_board_valid(old: SnapshotView, draw: Draw, r: Option<u8>, new: SnapshotView)
    requires
        valid_done(old.done_numbers),
        draw_outcome(old, draw, r, new),
    ensures
        valid_done(new.done_numbers),
{
    if let Some(n) = r {
        let s = new.done_numbers;
        assert forall|i: int, j: int| 0 <= i < s.len() && 0 <= j < s.len() && i != j implies s[i]
            != s[j] by {
            if i == s.len() - 1 && j < s.len() - 1 {
                assert(old.done_numbers[j] == s[j]);
            } else if j == s.len() - 1 && i < s.len() - 1 {
                assert(old.done_numbers[i] == s[i]);
            }
        }
    }
}

/// The board runs out after ninety draws: when ninety distinct board
/// numbers are drawn, none is left.
pub proof fn board_exhausted_after_ninety(done: Seq<u8>)
    requires
        valid_done(done),
        done.len() == BOARD_MAX,
    ensures
        forall|n: u8| !is_available(done, n),
{
    broadcast use {vstd::set::group_set_axioms, vstd::seq_lib::seq_to_set_is_finite};

    let board = Seq::new(90, |i: int| (i + 1) as u8);
    assert(board.no_duplicates());
    board.unique_seq_to_set();
    done.unique_seq_to_set();
    assert(done.to_set().subset_of(board.to_set())) by {
        assert forall|x: u8| done.to_set().contains(x) implies board.to_set().contains(x) by {
            let j = choose|j: int| 0 <= j < done.len() && done[j] == x;
            assert(board[x as int - 1] == x);
        }
    }
    vstd::set_lib::lemma_subset_equality(done.to_set(), board.to_set());
    assert forall|n: u8| !is_available(done, n) by {
        if 1 <= n <= BOARD_MAX {
            assert(board[n as int - 1] == n);
            assert(board.to_set().contains(n));
            assert(done.to_set().contains(n));
        }
    }
}

/// A number can be claimed only once on a ticket whose numbers are
/// distinct: after a successful claim, claiming it again fails.
pub proof fn claim_succeeds_once(
    t0: Seq<PositionedNumber>,
    n: u8,
    t1: Seq<PositionedNumber>,
    r2: bool,
    t2: Seq<PositionedNumber>,
)
    requires
        forall|i: int, j: int| 0 <= i < j < t0.len() ==> #[trigger] t0[i].number != #[trigger] t0[j].number,
        claim_outcome(t0, n, true, t1),
        claim_outcome(t1, n, r2, t2),
    ensures
        !r2,
{
    let i = choose|i: int| is_first_unclaimed(t0, n, i) && t1 == t0.update(i, crate::game::claimed_cell(t0[i]));
    if has_unclaimed(t1, n) {
        let k = choose|k: int| 0 <= k < t1.len() && #[trigger] t1[k].number == n && !t1[k].claimed;
        if k != i {
            assert(t0[k].number == n);
            if k < i {
                assert(t0[k].number != t0[i].number);
            } else {
                assert(t0[i].number != t0[k].number);
            }
        }
    }
}

/// Claiming never takes back a claim and never moves or changes a number.
pub proof fn claim_keeps_claims(t0: Seq<PositionedNumber>, n: u8, r: bool, t1: Seq<PositionedNumber>)
    requires
        claim_outcome(t0, n, r, t1),
    ensures
        t1.len() == t0.len(),
        forall|k: int|
            0 <= k < t0.len() ==> (#[trigger] t1[k]).number == t0[k].number && t1[k].row == t0[k].row
                && t1[k].column == t0[k].column && (t0[k].claimed ==> t1[k].claimed),
{
}

/// The numbers of a fresh ticket are all different.
pub proof fn valid_ticket_numbers_distinct(s: Seq<PositionedNumber>)
    requires
        valid_ticket(s),
    ensures
        forall|i: int, j: int| 0 <= i < j < s.len() ==> #[trigger] s[i].number != #[trigger] s[j].number,
{
    assert forall|i: int, j: int| 0 <= i < j < s.len() implies #[trigger] s[i].number
        != #[trigger] s[j].number by {
        assert(valid_cell(s[i]) && valid_cell(s[j]));
        if s[i].column < s[j].column {
            assert(s[i].number < 10 * s[i].column + 10);
            assert(10 * s[j].column >= 10 * s[i].column + 10);
        }
    }
}

/// A prize cannot be won while some prize with the same verifier is still
/// open.
pub proof fn open_prize_blocks_verify(v: WinningVerifier, game: SnapshotView, ticket: Seq<PositionedNumber>)
    requires
        has_open_winning(game.winnings, v),
    ensures
        !verify_spec(v, game, ticket),
{
}

/// Right after a game starts, every prize is open, so no claim of a prize
/// succeeds.
pub proof fn fresh_start_has_no_winner(
    g0: GameView,
    starter: u128,
    winnings: Seq<crate::game::WinningView>,
    g1: GameView,
    user: u128,
    name: Seq<char>,
    r: Option<crate::game::WinnerView>,
    g2: GameView,
)
    requires
        start_outcome(g0, starter, winnings, true, g1),
        win_outcome(g1, user, name, r, g2),
    ensures
        r is None,
        g2 == g1,
{
    if r is Some {
        let j = choose|j: int| 0 <= j < g1.users.len() && #[trigger] g1.users[j].id == user && exists|i: int|
            crate::game::is_first_named(g1.snapshot.winnings, name, i) && verify_spec(
                g1.snapshot.winnings[i].verify_by,
                g1.snapshot,
                g1.users[j].ticket,
            );
        let i = choose|i: int|
            crate::game::is_first_named(g1.snapshot.winnings, name, i) && verify_spec(
                g1.snapshot.winnings[i].verify_by,
                g1.snapshot,
                g1.users[j].ticket,
            );
        assert(g1.snapshot.winnings[i].winner is None);
        assert(has_open_winning(g1.snapshot.winnings, g1.snapshot.winnings[i].verify_by));
    }
}

/// A player who joins a game can reconnect to it: after `u` is stored, the
/// game holds exactly one player with `u`'s id, and it is `u`.
pub proof fn joined_user_reconnects(old: Seq<UserView>, u: UserView, new: Seq<UserView>)
    requires
        ids_distinct(old),
        new == insert_user(old, u),
    ensures
        ids_distinct(new),
        has_user(new, u.id),
        forall|i: int| 0 <= i < new.len() && #[trigger] new[i].id == u.id ==> new[i] == u,
{
    if has_user(old, u.id) {
        let k = choose|k: int| 0 <= k < old.len() && old[k].id == u.id;
        assert(new[k].id == u.id);
        assert forall|i: int| 0 <= i < new.len() && #[trigger] new[i].id == u.id implies new[i] == u by {
            if i != k {
                assert(old[i].id == u.id);
            }
        }
        assert forall|i: int, j: int|
            0 <= i < new.len() && 0 <= j < new.len() && i != j implies #[trigger] new[i].id
            != #[trigger] new[j].id by {
            if i != k && j != k {
                assert(old[i].id != old[j].id);
            } else if i == k {
                assert(old[j].id != old[k].id);
            } else {
                assert(old[i].id != old[k].id);
            }
        }
    } else {
        assert(new[new.len() - 1].id == u.id);
        assert forall|i: int, j: int|
            0 <= i < new.len() && 0 <= j < new.len() && i != j implies #[trigger] new[i].id
            != #[trigger] new[j].id by {
            if i < old.len() && j < old.len() {
                assert(old[i].id != old[j].id);
            } else if i < old.len() {
                assert(old[i].id == new[i].id);
            } else {
                assert(old[j].id == new[j].id);
            }
        }
    }
}

/// Seen as a map from id to player, storing a player is a map insert: the
/// stored player is found under its id and every other player stays.
pub proof fn storing_player_is_map_insert(old: Seq<UserView>, u: UserView)
    requires
        ids_distinct(old),
    ensures
        users_by_id(insert_user(old, u)) == users_by_id(old).insert(u.id, u),
{
    let new = insert_user(old, u);
    joined_user_reconnects(old, u, new);
    let m = users_by_id(new);
    let e = users_by_id(old).insert(u.id, u);
    let kk: int = if has_user(old, u.id) {
        choose|k: int| 0 <= k < old.len() && old[k].id == u.id
    } else {
        old.len() as int
    };
    assert(new[kk] == u);
    assert forall|i: int| 0 <= i < new.len() && i != kk implies #[trigger] new[i] == old[i] by {}
    assert forall|id: u128| #[trigger] m.dom().contains(id) <==> e.dom().contains(id) by {
        if has_user(new, id) && id != u.id {
            let j = choose|j: int| 0 <= j < new.len() && #[trigger] new[j].id == id;
            assert(old[j].id == id);
        }
        if has_user(old, id) {
            let j = choose|j: int| 0 <= j < old.len() && #[trigger] old[j].id == id;
            if j != kk {
                assert(new[j].id == id);
            } else {
                assert(new[kk].id == u.id);
            }
        }
        if id == u.id {
            assert(new[kk].id == u.id);
        }
    }
    assert forall|id: u128| #[trigger] m.dom().contains(id) implies m[id] == e[id] by {
        let j = choose|j: int| 0 <= j < new.len() && #[trigger] new[j].id == id;
        assert(new[j].id == id);
        if id != u.id {
            assert(j != kk);
            assert(old[j].id == id);
            let k = choose|k: int| 0 <= k < old.len() && #[trigger] old[k].id == id;
            assert(old[k].id == id);
            assert(k == j);
        }
    }
    assert(m =~= e);
}

/// A hosted game can be found again by its id, as it was stored.
pub proof fn hosted_game_is_stored(old: Seq<GameView>, g: GameView)
    requires
        games_wf(old),
    ensures
        has_game(insert_game(old, g), g.id),
        forall|i: int|
            0 <= i < insert_game(old, g).len() && #[trigger] insert_game(old, g)[i].id == g.id
                ==> insert_game(old, g)[i] == g,
{
    let new = insert_game(old, g);
    if has_game(old, g.id) {
        let k = choose|k: int| 0 <= k < old.len() && old[k].id == g.id;
        assert(new[k].id == g.id);
        assert forall|i: int| 0 <= i < new.len() && #[trigger] new[i].id == g.id implies new[i] == g by {
            if i != k {
                assert(old[i].id == g.id);
            }
        }
    } else {
        assert(new[new.len() - 1].id == g.id);
    }
}

/// Seen as a map from id to game, storing a game is a map insert: the
/// stored game is found under its id and every other game stays.
pub proof fn storing_game_is_map_insert(old: Seq<GameView>, g: GameView)
    requires
        games_wf(old),
    ensures
        games_by_id(insert_game(old, g)) == games_by_id(old).insert(g.id, g),
{
    let new = insert_game(old, g);
    hosted_game_is_stored(old, g);
    let m = games_by_id(new);
    let e = games_by_id(old).insert(g.id, g);
    let kk: int = if has_game(old, g.id) {
        choose|k: int| 0 <= k < old.len() && old[k].id == g.id
    } else {
        old.len() as int
    };
    assert(new[kk] == g);
    assert forall|i: int| 0 <= i < new.len() && i != kk implies #[trigger] new[i] == old[i] by {}
    assert forall|id: u128| #[trigger] m.dom().contains(id) <==> e.dom().contains(id) by {
        if has_game(new, id) && id != g.id {
            let j = choose|j: int| 0 <= j < new.len() && #[trigger] new[j].id == id;
            assert(old[j].id == id);
        }
        if has_game(old, id) {
            let j = choose|j: int| 0 <= j < old.len() && #[trigger] old[j].id == id;
            if j != kk {
                assert(new[j].id == id);
            } else {
                assert(new[kk].id == g.id);
            }
        }
        if id == g.id {
            assert(new[kk].id == g.id);
        }
    }
    assert forall|id: u128| #[trigger] m.dom().contains(id) implies m[id] == e[id] by {
        let j = choose|j: int| 0 <= j < new.len() && #[trigger] new[j].id == id;
        assert(new[j].id == id);
        if id != g.id {
            assert(j != kk);
            assert(old[j].id == id);
            let k = choose|k: int| 0 <= k < old.len() && #[trigger] old[k].id == id;
            assert(old[k].id == id);
            assert(k == j);
        }
    }
    assert(m =~= e);
}

/// A client that joins a game as `name` can later reconnect as the same
/// player: the reconnection enters the same game as the same player.
pub proof fn joined_player_can_reconnect(
    old: Seq<GameView>,
    game: u128,
    name: String,
    step: LobbyStep,
    mid: Seq<GameView>,
    user_id: u128,
    step2: LobbyStep,
    new: Seq<GameView>,
)
    requires
        games_wf(old),
        lobby_outcome(old, Input::ConnectMeAs(ConnectMeAsInput { game, name }), step, mid),
        step.session matches Some(s) && s.user_id == user_id,
        lobby_outcome(mid, Input::Reconnect(ReconnectInput { user_id, game_id: game }), step2, new),
    ensures
        new == mid,
        step2.outputs@.len() == 1,
        step2.session matches Some(s2) && s2.game_id == game && s2.user_id == user_id
            && s2.user_name@ == name@,
{
    let (i, u) = choose|i: int, u: UserView|
        0 <= i < old.len() && #[trigger] old[i].id == game && #[trigger] u.name == name@
            && u.user_type == crate::game::UserType::NonHost && valid_ticket(u.ticket) && mid
            == old.update(i, joined(old[i], u)) && step.outputs@.len() == 2 && (
        step.outputs@[0] matches crate::game::proto::Output::ConnectedToGame(o) && o.user@ == u
            && o.snapshot@ == old[i].snapshot) && (step.outputs@[1] matches crate::game::proto::Output::Announcement(
            crate::game::proto::AnnouncementOutput::NewUserJoined(a),
        ) && a.name@ == name@) && crate::hub::session_of(step.session, game, u);
    assert(u.id == user_id);
    joined_user_reconnects(old[i].users, u, mid[i].users);
    assert(mid[i].id == game);
    assert(has_user(mid[i].users, user_id));
    let (i2, j2) = choose|i2: int, j2: int|
        0 <= i2 < mid.len() && #[trigger] mid[i2].id == game && 0 <= j2 < mid[i2].users.len()
            && #[trigger] mid[i2].users[j2].id == user_id && step2.outputs@.len() == 1 && (
        step2.outputs@[0] matches crate::game::proto::Output::ReconnectedToGame(o) && o.user@
            == mid[i2].users[j2] && o.snapshot@ == mid[i2].snapshot) && crate::hub::session_of(
            step2.session,
            game,
            mid[i2].users[j2],
        );
    if i2 != i {
        assert(mid[i2] == old[i2]);
        assert(old[i2].id != old[i].id);
    }
}

/// While the link is down, requests only queue up, in order.
proof fn lemma_queue_while_down(states: Seq<WSApi>, ds: Seq<Input>, rs: Seq<Option<Input>>, j: int)
    requires
        states.len() == ds.len() + 1,
        rs.len() == ds.len(),
        0 <= j <= ds.len(),
        !states[0].connected,
        states[0].buffer@.len() == 0,
        forall|i: int|
            #![trigger rs[i]]
            0 <= i < ds.len() ==> send_outcome(states[i], Command::SendData(ds[i]), rs[i], states[i + 1]),
    ensures
        !states[j].connected,
        states[j].buffer@ == ds.take(j),
        forall|i: int| 0 <= i < j ==> #[trigger] rs[i] is None,
    decreases j,
{
    if j == 0 {
        assert(ds.take(0) =~= Seq::<Input>::empty());
    } else {
        lemma_queue_while_down(states, ds, rs, j - 1);
        assert(send_outcome(states[j - 1], Command::SendData(ds[j - 1]), rs[j - 1], states[j]));
        assert(ds.take(j) =~= ds.take(j - 1).push(ds[j - 1]));
    }
}

/// Requests made while the link is down all go out once it comes up, each
/// once and in the order they were made, however many there are: starting
/// from a link that is down with nothing waiting, the requests `ds` are
/// handed to `handle_input` one by one (through the states `states`, with
/// answers `rs`), and then the link comes up. No request goes out before,
/// the link's answer sends exactly `ds` in order, and afterwards the link
/// is up with nothing waiting.
pub proof fn queued_requests_go_out_in_order(
    states: Seq<WSApi>,
    ds: Seq<Input>,
    rs: Seq<Option<Input>>,
    effects: Seq<Effect>,
    last: WSApi,
)
    requires
        states.len() == ds.len() + 1,
        rs.len() == ds.len(),
        !states[0].connected,
        states[0].buffer@.len() == 0,
        forall|i: int|
            #![trigger rs[i]]
            0 <= i < ds.len() ==> send_outcome(states[i], Command::SendData(ds[i]), rs[i], states[i + 1]),
        connect_outcome(states[ds.len() as int], effects, last),
    ensures
        forall|i: int| 0 <= i < rs.len() ==> #[trigger] rs[i] is None,
        effects == ds.map_values(|d: Input| Effect::Send(d)),
        last.connected,
        last.buffer@.len() == 0,
{
    lemma_queue_while_down(states, ds, rs, ds.len() as int);
    assert(ds.take(ds.len() as int) =~= ds);
}

/// In a running game, every announcement goes to every player, and only
/// announcements do: whatever the request, an answer delivered to everyone
/// is an announcement, and an answer sent back to the one player who asked
/// is not.
pub proof fn announcements_reach_every_player(
    old: GameView,
    user_id: u128,
    user_name: Seq<char>,
    input: Input,
    r: Option<Delivery>,
    new: GameView,
)
    requires
        game_input_outcome(old, user_id, user_name, input, r, new),
    ensures
        r matches Some(Delivery::Everyone(o)) ==> o is Announcement,
        r matches Some(Delivery::Sender(o)) ==> !(o is Announcement),
{
}

/// Only the host draws, and a number drawn is new, on the board, added to
/// the game's drawn numbers and announced to every player; when nothing is
/// drawn, the drawn numbers stay as they were.
pub proof fn drawn_number_is_new_and_announced_to_all(
    old: GameView,
    user_id: u128,
    user_name: Seq<char>,
    d: DrawNumberInput,
    r: Option<Delivery>,
    new: GameView,
)
    requires
        game_input_outcome(old, user_id, user_name, Input::DrawNumber(d), r, new),
    ensures
        r is Some ==> user_id == old.host,
        r is None ==> new.snapshot.done_numbers == old.snapshot.done_numbers,
        user_id == old.host && d.draw is Random && (exists|n: u8| 1 <= n <= BOARD_MAX
            && !old.snapshot.done_numbers.contains(n)) ==> r is Some,
        r matches Some(x) ==> (x matches Delivery::Everyone(
            Output::Announcement(AnnouncementOutput::NewNumber(nn)),
        ) && 1 <= nn.number <= BOARD_MAX && !old.snapshot.done_numbers.contains(nn.number)
            && new.snapshot.done_numbers == old.snapshot.done_numbers.push(nn.number)),
{
    let n = choose|n: Option<u8>|
        #[trigger] crate::instance::game_draw_outcome(old, user_id, d.draw, n, new) && r == match n {
            Some(k) => Some(
                Delivery::Everyone(
                    Output::Announcement(
                        AnnouncementOutput::NewNumber(crate::game::proto::NewNumberAnnouncement { number: k }),
                    ),
                ),
            ),
            None => None,
        };
    if user_id == old.host && d.draw is Random && (exists|m: u8| 1 <= m <= BOARD_MAX
        && !old.snapshot.done_numbers.contains(m)) {
        let m = choose|m: u8| 1 <= m <= BOARD_MAX && !old.snapshot.done_numbers.contains(m);
        assert(crate::game::is_available(old.snapshot.done_numbers, m));
    }
}

/// A prize won is announced to every player: when a player's claim on a
/// prize succeeds, the answer goes to everyone and names the prize, the
/// player as the game knows them, and the player's ticket.
pub proof fn won_prize_is_announced_to_all(
    old: GameView,
    user_id: u128,
    user_name: Seq<char>,
    claim: ClaimWinInput,
    r: Option<Delivery>,
    new: GameView,
)
    requires
        game_input_outcome(old, user_id, user_name, Input::ClaimWin(claim), r, new),
        win_claim_ok(old, user_id, claim.win_name@),
    ensures
        r matches Some(Delivery::Everyone(Output::Announcement(AnnouncementOutput::NewWinner(a))))
            && a.win_name@ == claim.win_name@ && exists|j: int|
            0 <= j < old.users.len() && #[trigger] old.users[j].id == user_id && a.user_name@
                == old.users[j].name && a.ticket@ == old.users[j].ticket,
{
    let w = choose|w: Option<crate::game::WinnerView>|
        #[trigger] win_outcome(old, user_id, claim.win_name@, w, new) && (r is Some <==> w is Some) && (
        r matches Some(d) ==> (d matches Delivery::Everyone(
            Output::Announcement(AnnouncementOutput::NewWinner(a)),
        ) && w == Some(
            crate::game::WinnerView { user: a.user_name@, win_name: a.win_name@, ticket: a.ticket@ },
        )));
    assert(w is Some);
}

/// Every announcement of the server reaches the client's store, unchanged
/// and once: the link's only effect on it is to hand it to the store.
pub proof fn server_announcements_reach_the_store(a: AnnouncementOutput, r: Seq<Effect>)
    requires
        server_effects(Some(Output::Announcement(a)), r),
    ensures
        r.len() == 1,
        r[0] == Effect::Store(StoreInput::NewAnnouncement(a)),
{
}

/// The client answers every message it can read: only a refused number
/// claim (and a message that could not be read) leaves it without effect;
/// a number claimed goes to the store as claimed, and the link being
/// established is told to the store.
pub proof fn client_reacts_to_server_messages(m: Option<Output>, r: Seq<Effect>)
    requires
        server_effects(m, r),
    ensures
        r.len() == 0 <==> (m is None || m matches Some(Output::ClaimNumberFailure(_))),
        m matches Some(Output::ClaimNumberSuccess(c)) ==> r == seq![
            Effect::Store(StoreInput::ClaimSuccess(c.number)),
        ],
        m matches Some(Output::ConnectionEstablished(_)) ==> r == seq![Effect::Store(StoreInput::Connected)],
{
}

/// What the server sends of the player and the game reaches the client
/// unchanged: a hosted player is first kept in the browser, then the
/// game's page is opened under the game's id, then the store is told; a
/// joined player is kept in the browser and handed to the store with the
/// game's snapshot; a reconnected player is handed to the store with the
/// game's snapshot.
pub proof fn client_keeps_what_the_server_sends(m: Option<Output>, r: Seq<Effect>)
    requires
        server_effects(m, r),
    ensures
        m matches Some(Output::NewGameHosted(h)) ==> {
            &&& r.len() == 3
            &&& (r[0] matches Effect::SaveUser(u) && u@ == h.user@)
            &&& (r[1] matches Effect::ChangeRoute(t) && t@ == crate::ws_api::uuid_text(h.game_id))
            &&& (r[2] matches Effect::Store(StoreInput::NewGameHosted(g, u)) && u == h.user && g@
                == crate::ws_api::uuid_text(h.game_id))
        },
        m matches Some(Output::ConnectedToGame(c)) ==> {
            &&& r.len() == 2
            &&& (r[0] matches Effect::SaveUser(u) && u@ == c.user@)
            &&& (r[1] matches Effect::Store(StoreInput::ConnectedToGame(u, sn, _)) && u == c.user && sn
                == c.snapshot)
        },
        m matches Some(Output::ReconnectedToGame(c)) ==> {
            &&& r.len() == 1
            &&& (r[0] matches Effect::Store(StoreInput::Reconnected(u, sn, _)) && u == c.user && sn
                == c.snapshot)
        },
{
}

/// On the client, a number claimed is marked on the ticket and nothing
/// else changes: every cell keeps its place and number, the cells holding
/// the number become claimed, and a cell claimed before stays claimed.
pub proof fn client_claims_are_never_taken_back(ns: Seq<PositionedNumber>, n: u8)
    ensures
        claim_all(ns, n).len() == ns.len(),
        forall|i: int|
            0 <= i < ns.len() ==> {
                &&& (#[trigger] claim_all(ns, n)[i]).number == ns[i].number
                &&& claim_all(ns, n)[i].row == ns[i].row
                &&& claim_all(ns, n)[i].column == ns[i].column
                &&& claim_all(ns, n)[i].claimed == (ns[i].claimed || ns[i].number == n)
            },
{
}

/// Two successful claims on the client leave both numbers claimed,
/// together with every cell claimed before them.
pub proof fn client_claims_accumulate(ns: Seq<PositionedNumber>, a: u8, b: u8)
    ensures
        forall|i: int|
            0 <= i < ns.len() ==> (#[trigger] claim_all(claim_all(ns, a), b)[i]).claimed == (ns[i].claimed
                || ns[i].number == a || ns[i].number == b),
{
    client_claims_are_never_taken_back(ns, a);
    client_claims_are_never_taken_back(claim_all(ns, a), b);
}

/// A fresh ticket's rows may use any of the nine columns: for every column
/// from 0 to 8 some draws put it among a row's five columns, so no column
/// is left out of every ticket.
pub proof fn fresh_ticket_rows_may_use_any_column(c: u8)
    requires
        c < 9,
    ensures
        exists|cols: Seq<u8>| #[trigger] drawn_row(cols) && cols.contains(c),
{
    lemma_selection_can_hold(0, 9, 5, c as int);
    let picks = choose|picks: Seq<usize>|
        #[trigger] valid_picks(picks, 0, 9) && selection(picks, 5, 0, 9).contains(c as u8);
    let cols = selection(picks, 5, 0, 9);
    assert(drawn_row(cols));
}

/// A column of a fresh ticket may hold any number of its decade: when at
/// least one row has the column, some draws put each of the decade's
/// numbers among the column's numbers.
pub proof fn fresh_ticket_columns_may_hold_any_number(rows: Seq<Seq<u8>>, c: u8, x: u8)
    requires
        c < 9,
        rows_with(rows, c).len() >= 1,
        column_low(c) <= x < 10 * c + 10,
    ensures
        exists|vals: Seq<u8>| #[trigger] drawn_column(rows, c as int, vals) && vals.contains(x),
{
    assert(rows_with_below(rows, c, 0).len() == 0);
    assert(rows_with_below(rows, c, 1).len() <= 1);
    assert(rows_with_below(rows, c, 2).len() <= 2);
    assert(rows_with_below(rows, c, 3).len() <= 3);
    let n = rows_with(rows, c).len() as int;
    let lo = column_low(c);
    let hi = 10 * c + 10;
    lemma_selection_can_hold(lo, hi, n, x as int);
    let picks = choose|picks: Seq<usize>|
        #[trigger] valid_picks(picks, lo, hi) && selection(picks, n, lo, hi).contains(x);
    let vals = selection(picks, n, lo, hi);
    assert(valid_picks(picks, column_low(((c as int) as u8)), 10 * (c as int) + 10));
    assert(drawn_column(rows, c as int, vals));
}

/// A number the server confirms as claimed is marked on the client's
/// ticket: the store's actions for the report, applied to the store, leave
/// every cell in its place with its number, claim the cells holding the
/// number, keep every earlier claim, and change nothing else of the store.
pub proof fn confirmed_claim_is_marked_on_the_client(
    s: TambolaStore,
    n: u8,
    acts: Seq<StoreAction>,
    s2: TambolaStore,
)
    requires
        s.user is Some,
        store_input_actions(s, StoreInput::ClaimSuccess(n), acts),
        reduce_outcome(s, acts[0], s2),
    ensures
        s2.user is Some,
        s2.user->0@.id == s.user->0@.id,
        s2.user->0@.name == s.user->0@.name,
        s2.user->0@.ticket.len() == s.user->0@.ticket.len(),
        forall|i: int|
            0 <= i < s.user->0@.ticket.len() ==> {
                let c = #[trigger] s2.user->0@.ticket[i];
                let p = s.user->0@.ticket[i];
                &&& c.number == p.number
                &&& c.row == p.row
                &&& c.column == p.column
                &&& c.claimed == (p.claimed || p.number == n)
            },
        s2.ws_connected == s.ws_connected,
        s2.game == s.game,
        s2.game_snapshot == s.game_snapshot,
        s2.announcements == s.announcements,
{
    client_claims_are_never_taken_back(s.user->0@.ticket, n);
    assert(user_view_opt(s.user) == Some(s.user->0@));
    assert(user_view_opt(s2.user) == Some(s2.user->0@));
}

/// Every announcement the client receives is recorded: the store's
/// actions for it, applied to the store, add it at the end of the list and
/// keep the player and the link; a drawn number is added to the client's
/// board, and a prize won gets the winner's name on every prize of that
/// name while the other prizes stay.
pub proof fn announcement_is_recorded_on_the_client(
    s: TambolaStore,
    a: AnnouncementOutput,
    acts: Seq<StoreAction>,
    s2: TambolaStore,
)
    requires
        store_input_actions(s, StoreInput::NewAnnouncement(a), acts),
        reduce_outcome(s, acts[0], s2),
    ensures
        s2.announcements@ == s.announcements@.push(a),
        s2.user == s.user,
        s2.ws_connected == s.ws_connected,
        s2.game == s.game,
        a matches AnnouncementOutput::NewNumber(nn) ==> s.game_snapshot is Some ==> {
            &&& s2.game_snapshot is Some
            &&& s2.game_snapshot->0@.done_numbers == s.game_snapshot->0@.done_numbers.push(nn.number)
            &&& s2.game_snapshot->0@.winnings == s.game_snapshot->0@.winnings
            &&& s2.game_snapshot->0@.started == s.game_snapshot->0@.started
        },
        a matches AnnouncementOutput::NewWinner(w) ==> s.game_snapshot is Some ==> {
            let old_ws = s.game_snapshot->0@.winnings;
            let new_ws = s2.game_snapshot->0@.winnings;
            &&& s2.game_snapshot is Some
            &&& s2.game_snapshot->0@.started
            &&& s2.game_snapshot->0@.done_numbers == s.game_snapshot->0@.done_numbers
            &&& new_ws.len() == old_ws.len()
            &&& forall|i: int|
                0 <= i < old_ws.len() ==> if old_ws[i].name == w.win_name@ {
                    &&& (#[trigger] new_ws[i]).name == old_ws[i].name
                    &&& new_ws[i].verify_by == old_ws[i].verify_by
                    &&& new_ws[i].winner == old_ws[i].winner
                    &&& new_ws[i].winner_name == Some(w.user_name@)
                } else {
                    new_ws[i] == old_ws[i]
                }
        },
{
    assert(acts[0] == StoreAction::AddAnnouncement(a));
    if s.game_snapshot is Some {
        assert(snapshot_view_opt(s.game_snapshot) == Some(s.game_snapshot->0@));
        if s2.game_snapshot is Some {
            assert(snapshot_view_opt(s2.game_snapshot) == Some(s2.game_snapshot->0@));
        }
    }
}

/// On the counter, one step up followed by one step down gives back the
/// value.
pub proof fn counter_up_then_down(v: usize)
    requires
        v < usize::MAX,
    ensures
        action_for(v, Request::Increment) == Some(Action::SetValue((v + 1) as usize)),
        action_for((v + 1) as usize, Request::Decrement) == Some(Action::SetValue(v)),
{
}

} // verus!
