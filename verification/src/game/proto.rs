//! Messages exchanged between a player's client and the game server.

use vstd::prelude::*;

use crate::game::{Draw, GameSnapshot, Ticket, User, Winning};

verus! {

/// A request from a client.
#[derive(Debug, PartialEq)]
pub enum Input {
    Nill,
    HostNewGame(HostNewGameInput),
    ConfigureAndStart(ConfigureAndStartInput),
    DrawNumber(DrawNumberInput),
    ClaimNumber(ClaimNumberInput),
    ClaimWin(ClaimWinInput),
    SendMessage(SendMessageInput),
    Reconnect(ReconnectInput),
    ConnectMeAs(ConnectMeAsInput),
}

#[derive(Debug, PartialEq)]
pub struct HostNewGameInput {
    pub name: String,
}

#[derive(Debug, PartialEq)]
pub struct ConfigureAndStartInput {
    pub winnings: Vec<Winning>,
}

#[derive(Debug, PartialEq)]
pub struct DrawNumberInput {
    pub draw: Draw,
}

#[derive(Debug, PartialEq)]
pub struct ClaimNumberInput {
    pub number: u8,
}

#[derive(Debug, PartialEq)]
pub struct ClaimWinInput {
    pub win_name: String,
}

#[derive(Debug, PartialEq)]
pub struct SendMessageInput {
    pub message: String,
}

/// Ids are the 128-bit values of UUIDs.
#[derive(Debug, PartialEq)]
pub struct ReconnectInput {
    pub user_id: u128,
    pub game_id: u128,
}

#[derive(Debug, PartialEq)]
pub struct ConnectMeAsInput {
    pub game: u128,
    pub name: String,
}

/// A message from the server.
#[derive(Debug, PartialEq)]
pub enum Output {
    ConnectionEstablished(ConnectionEstablished),
    NewGameHosted(NewGameHostedOutput),
    Announcement(AnnouncementOutput),
    ClaimNumberSuccess(ClaimNumberSuccessOutput),
    ClaimNumberFailure(ClaimNumberFailureOutput),
    ReconnectedToGame(ReconnectedToGameOutput),
    ReconnectFailure(ReconnectFailureOutput),
    ConnectedToGame(ConnectedToGameOutput),
    NotConnectedToGame(NotConnectedToGameOutput),
}

#[derive(Debug, PartialEq)]
pub struct ConnectionEstablished {
    pub message: String,
}

#[derive(Debug, PartialEq)]
pub struct NewGameHostedOutput {
    pub game_id: u128,
    pub user: User,
}

/// A message for every player of a game.
#[derive(Debug, PartialEq)]
pub enum AnnouncementOutput {
    NewNumber(NewNumberAnnouncement),
    NewMessage(NewMessageAnnouncement),
    NewWinner(NewWinnerAnnouncement),
    GameStarted(GameStartedAnnoucement),
    NewUserJoined(NewUserJoinedAnnoucement),
}

#[derive(Debug, PartialEq)]
pub struct NewNumberAnnouncement {
    pub number: u8,
}

#[derive(Debug, PartialEq)]
pub struct NewMessageAnnouncement {
    pub message: String,
    pub user: String,
}

#[derive(Debug, PartialEq)]
pub struct NewWinnerAnnouncement {
    pub win_name: String,
    pub user_name: String,
    pub ticket: Ticket,
}

#[derive(Debug, PartialEq)]
pub struct GameStartedAnnoucement {
    pub winnings: Vec<Winning>,
}

#[derive(Debug, PartialEq)]
pub struct NewUserJoinedAnnoucement {
    pub name: String,
}

#[derive(Debug, PartialEq)]
pub struct ClaimNumberSuccessOutput {
    pub number: u8,
}

#[derive(Debug, PartialEq)]
pub struct ClaimNumberFailureOutput {
    pub number: u8,
}

#[derive(Debug, PartialEq)]
pub struct ReconnectedToGameOutput {
    pub snapshot: GameSnapshot,
    pub user: User,
}

#[derive(Debug, PartialEq)]
pub struct ReconnectFailureOutput {
    pub reason: String,
}

#[derive(Debug, PartialEq)]
pub struct ConnectedToGameOutput {
    pub snapshot: GameSnapshot,
    pub user: User,
}

#[derive(Debug, PartialEq)]
pub struct NotConnectedToGameOutput {
    pub reason: String,
}

impl Output {
    /// The greeting sent when a client connects.
    pub fn new_connection_established() -> (r: Self)
        ensures
            r matches Output::ConnectionEstablished(c) && c.message@
                == "You are connected to server now"@,
    {
        Output::ConnectionEstablished(
            ConnectionEstablished { message: String::from_str("You are connected to server now") },
        )
    }

    pub fn new_game_hosted(game_id: u128, user: User) -> (r: Self)
        ensures
            r == Output::NewGameHosted(NewGameHostedOutput { game_id, user }),
    {
        Output::NewGameHosted(NewGameHostedOutput { game_id, user })
    }

    pub fn new_reconnected_to_game(user: User, snapshot: GameSnapshot) -> (r: Self)
        ensures
            r == Output::ReconnectedToGame(ReconnectedToGameOutput { user, snapshot }),
    {
        Output::ReconnectedToGame(ReconnectedToGameOutput { user, snapshot })
    }

    pub fn game_started(winnings: Vec<Winning>) -> (r: Self)
        ensures
            r == Output::Announcement(
                AnnouncementOutput::GameStarted(GameStartedAnnoucement { winnings }),
            ),
    {
        Output::Announcement(AnnouncementOutput::GameStarted(GameStartedAnnoucement { winnings }))
    }

    pub fn new_number(num: u8) -> (r: Self)
        ensures
            r == Output::Announcement(
                AnnouncementOutput::NewNumber(NewNumberAnnouncement { number: num }),
            ),
    {
        Output::Announcement(AnnouncementOutput::NewNumber(NewNumberAnnouncement { number: num }))
    }

    pub fn claim_number_success(num: u8) -> (r: Self)
        ensures
            r == Output::ClaimNumberSuccess(ClaimNumberSuccessOutput { number: num }),
    {
        Output::ClaimNumberSuccess(ClaimNumberSuccessOutput { number: num })
    }

    pub fn new_message(user: String, message: String) -> (r: Self)
        ensures
            r == Output::Announcement(
                AnnouncementOutput::NewMessage(NewMessageAnnouncement { user, message }),
            ),
    {
        Output::Announcement(AnnouncementOutput::NewMessage(NewMessageAnnouncement { user, message }))
    }

    pub fn new_winner(win_name: String, user_name: String, ticket: Ticket) -> (r: Self)
        ensures
            r == Output::Announcement(
                AnnouncementOutput::NewWinner(NewWinnerAnnouncement { win_name, user_name, ticket }),
            ),
    {
        Output::Announcement(
            AnnouncementOutput::NewWinner(NewWinnerAnnouncement { win_name, user_name, ticket }),
        )
    }

    pub fn connected_to_game(user: User, snapshot: GameSnapshot) -> (r: Self)
        ensures
            r == Output::ConnectedToGame(ConnectedToGameOutput { user, snapshot }),
    {
        Output::ConnectedToGame(ConnectedToGameOutput { user, snapshot })
    }

    pub fn connect_me_failed(reason: String) -> (r: Self)
        ensures
            r == Output::NotConnectedToGame(NotConnectedToGameOutput { reason }),
    {
        Output::NotConnectedToGame(NotConnectedToGameOutput { reason })
    }

    pub fn user_joined(name: String) -> (r: Self)
        ensures
            r == Output::Announcement(
                AnnouncementOutput::NewUserJoined(NewUserJoinedAnnoucement { name }),
            ),
    {
        Output::Announcement(AnnouncementOutput::NewUserJoined(NewUserJoinedAnnoucement { name }))
    }
}

} // verus!
