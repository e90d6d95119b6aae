use tambola::game::proto::{ClaimNumberInput, SendMessageInput};
use tambola::announce::{announcement_lines, announcement_text};
use tambola::counter::{Action as CounterAction, CounterStore, Request};
use tambola::game::proto::{
    AnnouncementOutput, ClaimNumberFailureOutput, ConnectionEstablished, GameStartedAnnoucement,
    Input, NewGameHostedOutput, NewMessageAnnouncement, NewNumberAnnouncement,
    NewUserJoinedAnnoucement, NewWinnerAnnouncement, Output, ReconnectFailureOutput,
};
use tambola::game::{GameSnapshot, PositionedNumber, Ticket, User, UserType, Winning, WinningVerifier};
use tambola::layout::{active_winnings, ticket_grid};
use tambola::store::{Action, ClientSnapshot, ClientWinning, StoreInput, TambolaStore};
use tambola::page::{PageMessage, TambolaPage};
use tambola::ws_api::{Command, Effect, InternalMessage, WSApi};

fn user() -> User {
    User {
        id: 7,
        name: "ann".to_string(),
        user_type: UserType::NonHost,
        ticket: Ticket {
            numbers: vec![
                PositionedNumber { row: 0, column: 0, claimed: false, number: 5 },
                PositionedNumber { row: 1, column: 2, claimed: false, number: 23 },
            ],
        },
    }
}

#[test]
fn counter_requests_and_actions() {
    let mut c = CounterStore::new();
    assert_eq!(c.value, 3);
    let a = c.handle_input(Request::Increment).unwrap();
    assert_eq!(a, CounterAction::SetValue(4));
    c.reduce(a);
    let a = c.handle_input(Request::Decrement).unwrap();
    c.reduce(a);
    assert_eq!(c.value, 3);
    c.reduce(c.handle_input(Request::Reset).unwrap());
    assert_eq!(c.value, 0);
    assert_eq!(c.handle_input(Request::Decrement), None);
    assert_eq!(c.handle_input(Request::SetTo(11)), Some(CounterAction::SetValue(11)));
}

#[test]
fn store_turns_inputs_into_actions() {
    let mut s = TambolaStore::new();
    assert_eq!(s.handle_input(StoreInput::Connected), vec![Action::SetConnected(true)]);
    assert_eq!(s.handle_input(StoreInput::Spit), vec![Action::Spit]);
    let acts = s.handle_input(StoreInput::Reconnected(user(), GameSnapshot::blank(), vec![]));
    assert_eq!(
        acts,
        vec![
            Action::SetSnapshot(GameSnapshot::blank()),
            Action::SetAnnouncements(vec![]),
            Action::SetUser(user()),
        ]
    );
    for a in acts {
        s.reduce(a);
    }
    assert_eq!(s.user, Some(user()));
    let acts = s.handle_input(StoreInput::ClaimSuccess(23));
    match &acts[..] {
        [Action::ClaimSuccess(ns)] => {
            assert!(!ns[0].claimed);
            assert!(ns[1].claimed);
        }
        other => panic!("unexpected {:?}", other),
    }
    for a in acts {
        s.reduce(a);
    }
    assert!(s.user.as_ref().unwrap().ticket.numbers[1].claimed);
}

#[test]
fn store_follows_announcements() {
    let mut s = TambolaStore::new();
    let ws = vec![Winning { name: "w".to_string(), verify_by: WinningVerifier::BullsEye, winner: None }];
    s.reduce(Action::AddAnnouncement(AnnouncementOutput::NewNumber(NewNumberAnnouncement { number: 1 })));
    assert_eq!(s.game_snapshot, None);
    s.reduce(Action::AddAnnouncement(AnnouncementOutput::GameStarted(GameStartedAnnoucement {
        winnings: ws.clone(),
    })));
    s.reduce(Action::AddAnnouncement(AnnouncementOutput::NewNumber(NewNumberAnnouncement { number: 9 })));
    let gs = s.game_snapshot.as_ref().unwrap();
    assert!(gs.started);
    assert_eq!(gs.done_numbers, vec![9]);
    assert_eq!(
        gs.winnings,
        vec![ClientWinning { name: "w".to_string(), verify_by: WinningVerifier::BullsEye, winner: None, winner_name: None }]
    );
    assert_eq!(s.announcements.len(), 3);
}

fn new_winner_announcement() -> AnnouncementOutput {
    AnnouncementOutput::NewWinner(NewWinnerAnnouncement {
        win_name: "A".to_string(),
        user_name: "bob".to_string(),
        ticket: Ticket { numbers: vec![] },
    })
}

#[test]
fn store_records_announced_winner_name() {
    let mut s = TambolaStore::new();
    s.ws_connected = true;
    let mut gs = GameSnapshot::blank();
    gs.done_numbers = vec![4, 9];
    gs.started = true;
    gs.winnings = vec![
        Winning { name: "A".to_string(), verify_by: WinningVerifier::BullsEye, winner: None },
        Winning { name: "B".to_string(), verify_by: WinningVerifier::BullsEye, winner: None },
    ];
    s.reduce(Action::SetSnapshot(gs));
    let announcement = AnnouncementOutput::NewWinner(NewWinnerAnnouncement {
        win_name: "A".to_string(),
        user_name: "bob".to_string(),
        ticket: Ticket { numbers: vec![] },
    });
    s.reduce(Action::AddAnnouncement(new_winner_announcement()));
    assert!(s.ws_connected);
    assert_eq!(s.user, None);
    assert_eq!(s.game, None);
    assert_eq!(s.announcements, vec![announcement]);
    assert_eq!(
        s.game_snapshot,
        Some(ClientSnapshot {
            done_numbers: vec![4, 9],
            started: true,
            winnings: vec![
                ClientWinning {
                    name: "A".to_string(),
                    verify_by: WinningVerifier::BullsEye,
                    winner: None,
                    winner_name: Some("bob".to_string()),
                },
                ClientWinning { name: "B".to_string(), verify_by: WinningVerifier::BullsEye, winner: None, winner_name: None },
            ],
        })
    );
    let active = active_winnings(&s.game_snapshot.as_ref().unwrap().winnings);
    assert_eq!(active.len(), 1);
    assert_eq!(active[0].name, "B");
}

#[test]
fn link_buffers_until_connected() {
    let mut api = WSApi::new();
    assert_eq!(api.handle_input(Command::SendData(Input::Nill)), None);
    assert_eq!(api.buffer.len(), 1);
    let out = api.update(InternalMessage::Connected);
    assert_eq!(out, vec![Effect::Send(Input::Nill)]);
    assert!(api.connected && api.buffer.is_empty());
    assert_eq!(api.handle_input(Command::SendData(Input::Nill)), Some(Input::Nill));
    assert!(api.update(InternalMessage::Lost).is_empty());
}

#[test]
fn link_answers_server_messages() {
    let mut api = WSApi::new();
    let out = api.update(InternalMessage::WsMessage(Some(Output::ConnectionEstablished(
        ConnectionEstablished { message: "x".to_string() },
    ))));
    assert_eq!(out, vec![Effect::Store(StoreInput::Connected)]);
    let out = api.update(InternalMessage::WsMessage(Some(Output::NewGameHosted(NewGameHostedOutput {
        game_id: 0x0123456789abcdef0011223344556677,
        user: user(),
    }))));
    let text = "01234567-89ab-cdef-0011-223344556677".to_string();
    assert_eq!(
        out,
        vec![
            Effect::SaveUser(user()),
            Effect::ChangeRoute(text.clone()),
            Effect::Store(StoreInput::NewGameHosted(text, user())),
        ]
    );
    let out = api.update(InternalMessage::WsMessage(Some(Output::ClaimNumberFailure(
        ClaimNumberFailureOutput { number: 3 },
    ))));
    assert!(out.is_empty());
    let out = api.update(InternalMessage::WsMessage(Some(Output::ReconnectFailure(
        ReconnectFailureOutput { reason: "r".to_string() },
    ))));
    assert_eq!(out, vec![Effect::Alert("Some other output".to_string())]);
    assert!(api.update(InternalMessage::WsMessage(None)).is_empty());
    let out = api.update(InternalMessage::WsMessage(Some(Output::claim_number_success(4))));
    assert_eq!(out, vec![Effect::Store(StoreInput::ClaimSuccess(4))]);
}

#[test]
fn grid_places_cells() {
    let t = user().ticket;
    let grid = ticket_grid(&t);
    assert_eq!(grid.len(), 27);
    assert_eq!(grid[0], Some(t.numbers[0]));
    assert_eq!(grid[9 + 2], Some(t.numbers[1]));
    assert_eq!(grid.iter().filter(|c| c.is_some()).count(), 2);
}

#[test]
fn only_open_prizes_are_active() {
    let ws = vec![
        ClientWinning { name: "a".to_string(), verify_by: WinningVerifier::BullsEye, winner: Some(1), winner_name: None },
        ClientWinning { name: "b".to_string(), verify_by: WinningVerifier::Early(5), winner: None, winner_name: None },
        ClientWinning {
            name: "c".to_string(),
            verify_by: WinningVerifier::Early(5),
            winner: None,
            winner_name: Some("x".to_string()),
        },
    ];
    let active = active_winnings(&ws);
    assert_eq!(
        active,
        vec![ClientWinning { name: "b".to_string(), verify_by: WinningVerifier::Early(5), winner: None, winner_name: None }]
    );
}

#[test]
fn game_screen_follows_the_store_user() {
    let mut screen = tambola::screen::Game::new();
    assert!(!screen.update(None));
    assert!(screen.update(Some(user())));
    assert!(screen.is_connected && !screen.is_host);
    assert!(!screen.update(Some(user())));
    let mut host = user();
    host.user_type = UserType::Host;
    assert!(screen.update(Some(host.clone())));
    assert!(screen.is_host);
    assert_eq!(screen.user, Some(host));
    assert!(screen.update(None));
    assert!(!screen.is_connected);
    assert!(screen.is_host);
}

#[test]
fn announcement_text_per_kind() {
    let started = AnnouncementOutput::GameStarted(GameStartedAnnoucement { winnings: vec![] });
    assert_eq!(announcement_text(&started), "Game Started");
    let msg = AnnouncementOutput::NewMessage(NewMessageAnnouncement {
        message: "hello".to_string(),
        user: "ann".to_string(),
    });
    assert_eq!(announcement_text(&msg), "ann:hello");
    let joined = AnnouncementOutput::NewUserJoined(NewUserJoinedAnnoucement { name: "bob".to_string() });
    assert_eq!(announcement_text(&joined), "bob Joined");
    let won = AnnouncementOutput::NewWinner(NewWinnerAnnouncement {
        win_name: "Full House".to_string(),
        user_name: "bob".to_string(),
        ticket: Ticket { numbers: vec![] },
    });
    assert_eq!(announcement_text(&won), "bob Won Full House");
}

#[test]
fn announcement_text_writes_numbers_in_decimal() {
    for (n, t) in [(0u8, "0"), (7, "7"), (10, "10"), (42, "42"), (90, "90"), (100, "100"), (205, "205"), (255, "255")] {
        let a = AnnouncementOutput::NewNumber(NewNumberAnnouncement { number: n });
        assert_eq!(announcement_text(&a), format!("New Number is {}", t));
    }
}

#[test]
fn announcement_lines_newest_first() {
    let anns = vec![
        AnnouncementOutput::NewUserJoined(NewUserJoinedAnnoucement { name: "bob".to_string() }),
        AnnouncementOutput::NewNumber(NewNumberAnnouncement { number: 17 }),
    ];
    assert_eq!(announcement_lines(&anns), vec!["New Number is 17".to_string(), "bob Joined".to_string()]);
    assert_eq!(announcement_lines(&vec![]), Vec::<String>::new());
}

#[test]
fn queued_requests_go_out_in_order_once_connected() {
    let mut api = WSApi::new();
    let reqs = vec![
        Input::ClaimNumber(ClaimNumberInput { number: 3 }),
        Input::SendMessage(SendMessageInput { message: "hi".to_string() }),
        Input::ClaimNumber(ClaimNumberInput { number: 9 }),
    ];
    assert_eq!(api.handle_input(Command::SendData(Input::ClaimNumber(ClaimNumberInput { number: 3 }))), None);
    assert_eq!(
        api.handle_input(Command::SendData(Input::SendMessage(SendMessageInput { message: "hi".to_string() }))),
        None
    );
    assert_eq!(api.handle_input(Command::SendData(Input::ClaimNumber(ClaimNumberInput { number: 9 }))), None);
    let out = api.update(InternalMessage::Connected);
    assert_eq!(out, reqs.into_iter().map(Effect::Send).collect::<Vec<_>>());
    assert!(api.connected);
    assert!(api.buffer.is_empty());
    assert_eq!(api.update(InternalMessage::Connected), vec![]);
}

#[test]
fn page_becomes_connected_once() {
    let mut p = TambolaPage::create();
    assert!(!p.is_connected);
    assert_eq!(p.status_text(), "You are not Connected");
    let s = TambolaStore::new();
    assert!(!p.update(PageMessage::StoreMessage(s)));
    assert!(!p.is_connected);
    assert!(!p.update(PageMessage::Other));
    let mut s = TambolaStore::new();
    s.ws_connected = true;
    assert!(p.update(PageMessage::StoreMessage(s)));
    assert!(p.is_connected);
    assert_eq!(p.status_text(), "You are  Connected");
    let mut s = TambolaStore::new();
    s.ws_connected = true;
    assert!(!p.update(PageMessage::StoreMessage(s)));
    assert!(!p.update(PageMessage::StoreMessage(TambolaStore::new())));
    assert!(p.is_connected);
}
