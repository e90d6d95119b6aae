//! The web client's link to the server: requests wait until the link is
//! up, and each message of the server is turned into effects on the
//! client.

use vstd::prelude::*;

use crate::game::User;
use crate::game::proto::{Input, Output};
use crate::store::StoreInput;

verus! {

/// A request of the client's components.
#[derive(Debug, PartialEq)]
pub enum Command {
    SendData(Input),
}

/// What reaches the link: it came up, it was lost, a message of the
/// server (`None` when it could not be read), or news from the store.
#[derive(Debug, PartialEq)]
pub enum InternalMessage {
    Connected,
    Lost,
    WsMessage(Option<Output>),
    StrMessage,
}

/// What the client does in answer: send a request to the server, tell
/// the store, keep the user in the browser's storage, open the page of a
/// game, or alert the player.
#[derive(Debug, PartialEq)]
pub enum Effect {
    Send(Input),
    Store(StoreInput),
    SaveUser(User),
    ChangeRoute(String),
    Alert(String),
}

/// The link's state: whether it is up, and the requests waiting for it.
#[derive(Debug)]
pub struct WSApi {
    pub connected: bool,
    pub buffer: Vec<Input>,
}

/// The lowercase hexadecimal digit for `d < 16`.
pub open spec fn hex_lower(d: u128) -> char {
    if d < 10 {
        (48 + d) as char
    } else {
        (87 + d) as char
    }
}

/// Which of the 32 hex digits stands at position `i` of the text.
pub open spec fn uuid_digit_at(i: int) -> int {
    if i < 8 {
        i
    } else if i < 13 {
        i - 1
    } else if i < 18 {
        i - 2
    } else if i < 23 {
        i - 3
    } else {
        i - 4
    }
}

/// The text of the UUID whose value is `id`: its 32 hex digits, most
/// significant first, in lowercase, grouped 8-4-4-4-12 by hyphens.
pub open spec fn uuid_text(id: u128) -> Seq<char> {
    Seq::new(
        36,
        |i: int|
            if i == 8 || i == 13 || i == 18 || i == 23 {
                '-'
            } else {
                hex_lower((id >> ((124 - 4 * uuid_digit_at(i)) as u128)) & 15u128)
            },
    )
}

/// The text of a UUID: `uuid::Uuid::from_u128(id).to_string()`.
///
/// The contract claims what the crate's `Display` does: the hyphenated
/// lowercase form of the UUID whose big-endian value is `id`.
#[verifier::external_body]
fn uuid_to_string(id: u128) -> (r: String)
    ensures
        r@ == uuid_text(id),
{
    uuid::Uuid::from_u128(id).to_string()
}

/// What `handle_input` does with `msg` on the link `old`: a request goes
/// out at once when the link is up, and waits at the end of the queue
/// otherwise.
pub open spec fn send_outcome(old: WSApi, msg: Command, r: Option<Input>, new: WSApi) -> bool {
    &&& new.connected == old.connected
    &&& match msg {
        Command::SendData(data) => if old.connected {
            r == Some(data) && new.buffer@ == old.buffer@
        } else {
            r is None && new.buffer@ == old.buffer@.push(data)
        },
    }
}

/// What `update` does when the link comes up: every waiting request goes
/// out, in the order it came, and the queue is emptied.
pub open spec fn connect_outcome(old: WSApi, r: Seq<Effect>, new: WSApi) -> bool {
    &&& new.connected
    &&& new.buffer@.len() == 0
    &&& r == old.buffer@.map_values(|d: Input| Effect::Send(d))
}

impl WSApi {
    /// A link that is not up yet, with nothing waiting.
    pub fn new() -> (r: Self)
        ensures
            !r.connected,
            r.buffer@.len() == 0,
    {
        WSApi { connected: false, buffer: Vec::new() }
    }

    /// A request to send: it goes out now when the link is up, and waits
    /// otherwise.
    pub fn handle_input(&mut self, msg: Command) -> (r: Option<Input>)
        ensures
            send_outcome(*old(self), msg, r, *final(self)),
    {
        match msg {
            Command::SendData(data) => {
                if self.connected {
                    Some(data)
                } else {
                    self.buffer.push(data);
                    None
                }
            },
        }
    }

    /// What the client does on `msg`: when the link comes up the waiting
    /// requests go out in order; a message of the server is handed to the
    /// store (a hosted or joined user is also saved, and a hosted game's
    /// page opened); an unexpected message raises an alert.
    pub fn update(&mut self, msg: InternalMessage) -> (r: Vec<Effect>)
        ensures
            match msg {
                InternalMessage::Connected => connect_outcome(*old(self), r@, *final(self)),
                InternalMessage::WsMessage(m) => final(self).connected == old(self).connected
                    && final(self).buffer@ == old(self).buffer@ && server_effects(m, r@),
                _ => final(self).connected == old(self).connected && final(self).buffer@
                    == old(self).buffer@ && r@.len() == 0,
            },
    {
        let mut r: Vec<Effect> = Vec::new();
        match msg {
            InternalMessage::Connected => {
                self.connected = true;
                let mut waiting: Vec<Input> = Vec::new();
                std::mem::swap(&mut waiting, &mut self.buffer);
                let ghost all = waiting@;
                while waiting.len() > 0
                    invariant
                        waiting@.len() + r@.len() == all.len(),
                        waiting@ == all.skip(r@.len() as int),
                        r@ == all.take(r@.len() as int).map_values(|d: Input| Effect::Send(d)),
                    decreases waiting@.len(),
                {
                    let data = waiting.remove(0);
                    r.push(Effect::Send(data));
                    assert(waiting@ =~= all.skip(r@.len() as int));
                    assert(r@ =~= all.take(r@.len() as int).map_values(|d: Input| Effect::Send(d)));
                }
                assert(all.take(all.len() as int) =~= all);
            },
            InternalMessage::WsMessage(data) => {
                r = effects_of_server_message(data);
            },
            _ => {},
        }
        r
    }
}

/// The effects `r` answer the server's message `m`.
pub open spec fn server_effects(m: Option<Output>, r: Seq<Effect>) -> bool {
    match m {
        None => r.len() == 0,
        Some(Output::ConnectionEstablished(_)) => r == seq![Effect::Store(StoreInput::Connected)],
        Some(Output::NewGameHosted(ngho)) => r.len() == 3 && (r[0] matches Effect::SaveUser(u)
            && u@ == ngho.user@) && (r[1] matches Effect::ChangeRoute(route) && route@ == uuid_text(
            ngho.game_id,
        )) && (r[2] matches Effect::Store(StoreInput::NewGameHosted(g, u)) && g@ == uuid_text(
            ngho.game_id,
        ) && u == ngho.user),
        Some(Output::Announcement(anc)) => r == seq![Effect::Store(StoreInput::NewAnnouncement(anc))],
        Some(Output::ReconnectedToGame(rtgo)) => r.len() == 1 && (r[0] matches Effect::Store(
            StoreInput::Reconnected(u, s, a),
        ) && u == rtgo.user && s == rtgo.snapshot && a@.len() == 0),
        Some(Output::ConnectedToGame(ctgo)) => r.len() == 2 && (r[0] matches Effect::SaveUser(u)
            && u@ == ctgo.user@) && (r[1] matches Effect::Store(StoreInput::ConnectedToGame(u, s, a))
            && u == ctgo.user && s == ctgo.snapshot && a@.len() == 0),
        Some(Output::ClaimNumberSuccess(cns)) => r == seq![
            Effect::Store(StoreInput::ClaimSuccess(cns.number)),
        ],
        Some(Output::ClaimNumberFailure(_)) => r.len() == 0,
        Some(_) => r.len() == 1 && (r[0] matches Effect::Alert(text) && text@
            == "Some other output"@),
    }
}

/// The effects of one message of the server.
fn effects_of_server_message(data: Option<Output>) -> (r: Vec<Effect>)
    ensures
        server_effects(data, r@),
{
    let mut r: Vec<Effect> = Vec::new();
    match data {
        None => {},
        Some(op) => match op {
            Output::ConnectionEstablished(_cs) => {
                r.push(Effect::Store(StoreInput::Connected));
            },
            Output::NewGameHosted(ngho) => {
                r.push(Effect::SaveUser(ngho.user.clone()));
                r.push(Effect::ChangeRoute(uuid_to_string(ngho.game_id)));
                r.push(Effect::Store(StoreInput::NewGameHosted(uuid_to_string(ngho.game_id), ngho.user)));
            },
            Output::Announcement(anc) => {
                r.push(Effect::Store(StoreInput::NewAnnouncement(anc)));
            },
            Output::ReconnectedToGame(rtgo) => {
                r.push(Effect::Store(StoreInput::Reconnected(rtgo.user, rtgo.snapshot, Vec::new())));
            },
            Output::ConnectedToGame(ctgo) => {
                r.push(Effect::SaveUser(ctgo.user.clone()));
                r.push(Effect::Store(StoreInput::ConnectedToGame(ctgo.user, ctgo.snapshot, Vec::new())));
            },
            Output::ClaimNumberSuccess(cns) => {
                r.push(Effect::Store(StoreInput::ClaimSuccess(cns.number)));
            },
            Output::ClaimNumberFailure(_cnf) => {},
            _ => {
                r.push(Effect::Alert(String::from_str("Some other output")));
            },
        },
    }
    r
}

} // verus!
