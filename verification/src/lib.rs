//! Game logic of a tambola (housie) game: tickets, the board of drawn
//! numbers, win verification, the protocol messages exchanged between
//! players and the server, the server's games and the decisions on each
//! request, and the state and decisions of the web client.

pub mod game;
pub mod instance;
pub mod config;
pub mod counter;
pub mod hub;
pub mod store;
pub mod ws_api;
pub mod laws;
pub mod layout;
pub mod screen;
pub mod announce;
pub mod page;
