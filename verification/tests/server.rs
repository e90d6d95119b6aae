use tambola::game::proto::{
    AnnouncementOutput, ClaimNumberFailureOutput, ClaimNumberInput, ClaimNumberSuccessOutput,
    ClaimWinInput, ConfigureAndStartInput, ConnectMeAsInput, DrawNumberInput, GameStartedAnnoucement,
    HostNewGameInput, Input, NewMessageAnnouncement, NewNumberAnnouncement,
    NewUserJoinedAnnoucement, NotConnectedToGameOutput, Output, ReconnectInput, SendMessageInput,
};
use tambola::game::{Draw, GameSnapshot, Ticket, UserType, Winning, WinningVerifier};
use tambola::hub::{route_outputs, Hub};
use tambola::instance::{Delivery, GameInstance};

fn winning(name: &str, verify_by: WinningVerifier, winner: Option<u128>) -> Winning {
    Winning { name: name.to_string(), verify_by, winner }
}

#[test]
fn output_constructors() {
    match Output::new_connection_established() {
        Output::ConnectionEstablished(c) => assert_eq!(c.message, "You are connected to server now"),
        other => panic!("unexpected {:?}", other),
    }
    assert_eq!(
        Output::new_number(7),
        Output::Announcement(AnnouncementOutput::NewNumber(NewNumberAnnouncement { number: 7 }))
    );
    assert_eq!(
        Output::claim_number_success(9),
        Output::ClaimNumberSuccess(ClaimNumberSuccessOutput { number: 9 })
    );
    assert_eq!(
        Output::new_message("ann".to_string(), "hi".to_string()),
        Output::Announcement(AnnouncementOutput::NewMessage(NewMessageAnnouncement {
            message: "hi".to_string(),
            user: "ann".to_string()
        }))
    );
    assert_eq!(
        Output::connect_me_failed("no".to_string()),
        Output::NotConnectedToGame(NotConnectedToGameOutput { reason: "no".to_string() })
    );
    assert_eq!(
        Output::user_joined("bob".to_string()),
        Output::Announcement(AnnouncementOutput::NewUserJoined(NewUserJoinedAnnoucement {
            name: "bob".to_string()
        }))
    );
    let ws = vec![winning("w", WinningVerifier::BullsEye, None)];
    assert_eq!(
        Output::game_started(ws.clone()),
        Output::Announcement(AnnouncementOutput::GameStarted(GameStartedAnnoucement { winnings: ws }))
    );
    let t = Ticket { numbers: vec![] };
    match Output::new_winner("w".to_string(), "ann".to_string(), t.clone()) {
        Output::Announcement(AnnouncementOutput::NewWinner(a)) => {
            assert_eq!(a.win_name, "w");
            assert_eq!(a.user_name, "ann");
            assert_eq!(a.ticket, t);
        }
        other => panic!("unexpected {:?}", other),
    }
    let g = GameInstance::host_new_game("h".to_string());
    let u = g.users[0].clone();
    match Output::new_game_hosted(5, u.clone()) {
        Output::NewGameHosted(o) => {
            assert_eq!(o.game_id, 5);
            assert_eq!(o.user, u);
        }
        other => panic!("unexpected {:?}", other),
    }
    match Output::new_reconnected_to_game(u.clone(), GameSnapshot::blank()) {
        Output::ReconnectedToGame(o) => assert_eq!(o.user, u),
        other => panic!("unexpected {:?}", other),
    }
    match Output::connected_to_game(u.clone(), GameSnapshot::blank()) {
        Output::ConnectedToGame(o) => assert_eq!(o.snapshot, GameSnapshot::blank()),
        other => panic!("unexpected {:?}", other),
    }
}

#[test]
fn hosted_game_has_its_host() {
    let g = GameInstance::host_new_game("host".to_string());
    assert_eq!(g.users.len(), 1);
    assert_eq!(g.users[0].name, "host");
    assert_eq!(g.users[0].user_type, UserType::Host);
    assert_eq!(g.host, g.users[0].id);
    assert!(!g.snapshot.started);
    assert!(g.reconnect(g.host).is_some());
    assert!(g.reconnect(g.host.wrapping_add(1)).is_none());
}

#[test]
fn joined_user_can_reconnect() {
    let mut g = GameInstance::host_new_game("host".to_string());
    let u = g.join("guest".to_string());
    assert_eq!(u.user_type, UserType::NonHost);
    assert_eq!(g.users.len(), 2);
    assert_eq!(g.reconnect(u.id), Some(u));
}

#[test]
fn only_the_game_id_starts_the_game() {
    let mut g = GameInstance::host_new_game("host".to_string());
    let host = g.host;
    let ws = vec![winning("first", WinningVerifier::LoveAtFirstSight, Some(3))];
    assert!(!g.choose_winnings_and_start(host, ws.clone()));
    assert!(!g.is_game_started());
    let id = g.id;
    assert!(g.choose_winnings_and_start(id, ws));
    assert!(g.is_game_started());
    assert_eq!(g.snapshot.winnings[0].winner, None);
    assert_eq!(g.snapshot.winnings[0].name, "first");
}

#[test]
fn only_the_host_draws() {
    let mut g = GameInstance::host_new_game("host".to_string());
    let guest = g.join("guest".to_string());
    assert_eq!(g.draw(guest.id, Draw::Specific(4)), None);
    assert!(g.snapshot.done_numbers.is_empty());
    let host = g.host;
    assert_eq!(g.draw(host, Draw::Specific(4)), Some(4));
    assert_eq!(g.snapshot.done_numbers, vec![4]);
}

#[test]
fn claims_need_a_started_game() {
    let mut g = GameInstance::host_new_game("host".to_string());
    let host = g.host;
    let n = g.users[0].ticket.numbers[0].number;
    assert!(!g.claim_number(host, n));
    assert!(!g.mark_number_done(1));
    let id = g.id;
    g.choose_winnings_and_start(id, vec![]);
    assert!(g.claim_number(host, n));
    assert!(g.users[0].ticket.numbers[0].claimed);
    assert!(!g.claim_number(host, n));
    assert!(!g.claim_number(host.wrapping_add(1), n));
    assert!(g.mark_number_done(1));
    assert_eq!(g.snapshot.done_numbers, vec![1]);
}

#[test]
fn fresh_prizes_cannot_be_won() {
    let mut g = GameInstance::host_new_game("host".to_string());
    let id = g.id;
    let host = g.host;
    g.choose_winnings_and_start(id, vec![winning("first", WinningVerifier::LoveAtFirstSight, None)]);
    let n = g.users[0].ticket.numbers[0].number;
    g.draw(host, Draw::Specific(n));
    g.claim_number(host, n);
    assert!(g.verify_and_mark_win(host, "first".to_string()).is_none());
    assert_eq!(g.snapshot.winnings[0].winner, None);
}

#[test]
fn win_is_marked_when_verifier_accepts() {
    let mut g = GameInstance::host_new_game("host".to_string());
    let host = g.host;
    let n = g.users[0].ticket.numbers[0].number;
    g.snapshot.started = true;
    g.snapshot.done_numbers = vec![n];
    g.snapshot.winnings = vec![winning("first", WinningVerifier::LoveAtFirstSight, Some(77))];
    g.users[0].ticket.numbers[0].claimed = true;
    let w = g.verify_and_mark_win(host, "first".to_string()).unwrap();
    assert_eq!(w.user, "host");
    assert_eq!(w.win_name, "first");
    assert_eq!(w.ticket, g.users[0].ticket);
    assert_eq!(g.snapshot.winnings[0].winner, Some(host));
    assert!(g.verify_and_mark_win(host, "nothing".to_string()).is_none());
}

#[test]
fn game_input_answers() {
    let mut g = GameInstance::host_new_game("host".to_string());
    let host = g.host;
    let id = g.id;
    let name = "host".to_string();
    let start = Input::ConfigureAndStart(ConfigureAndStartInput {
        winnings: vec![winning("w", WinningVerifier::BullsEye, None)],
    });
    assert_eq!(g.handle_game_input(host, &name, start), None);
    let start = Input::ConfigureAndStart(ConfigureAndStartInput {
        winnings: vec![winning("w", WinningVerifier::BullsEye, None)],
    });
    match g.handle_game_input(id, &name, start) {
        Some(Delivery::Everyone(Output::Announcement(AnnouncementOutput::GameStarted(a)))) => {
            assert_eq!(a.winnings[0].name, "w")
        }
        other => panic!("unexpected {:?}", other),
    }
    assert_eq!(
        g.handle_game_input(host, &name, Input::DrawNumber(DrawNumberInput { draw: Draw::Specific(3) })),
        Some(Delivery::Everyone(Output::new_number(3)))
    );
    assert_eq!(
        g.handle_game_input(host, &name, Input::DrawNumber(DrawNumberInput { draw: Draw::Specific(3) })),
        None
    );
    assert_eq!(
        g.handle_game_input(host, &name, Input::ClaimNumber(ClaimNumberInput { number: 0 })),
        Some(Delivery::Sender(Output::ClaimNumberFailure(ClaimNumberFailureOutput { number: 0 })))
    );
    let n = g.users[0].ticket.numbers[2].number;
    assert_eq!(
        g.handle_game_input(host, &name, Input::ClaimNumber(ClaimNumberInput { number: n })),
        Some(Delivery::Sender(Output::claim_number_success(n)))
    );
    assert_eq!(
        g.handle_game_input(host, &name, Input::SendMessage(SendMessageInput { message: "hello".to_string() })),
        Some(Delivery::Everyone(Output::new_message("host".to_string(), "hello".to_string())))
    );
    assert_eq!(
        g.handle_game_input(host, &name, Input::ClaimWin(ClaimWinInput { win_name: "w".to_string() })),
        None
    );
    assert_eq!(g.handle_game_input(host, &name, Input::Nill), None);
}

#[test]
fn lobby_host_reconnect_and_join() {
    let mut hub = Hub { games: Vec::new() };
    let step = hub.handle_lobby_input(Input::HostNewGame(HostNewGameInput { name: "ann".to_string() }));
    assert_eq!(step.outputs.len(), 1);
    let session = step.session.unwrap();
    assert_eq!(session.user_name, "ann");
    let game_id = session.game_id;
    match &step.outputs[0] {
        Output::NewGameHosted(o) => {
            assert_eq!(o.game_id, game_id);
            assert_eq!(o.user.id, session.user_id);
        }
        other => panic!("unexpected {:?}", other),
    }
    assert_eq!(hub.games.len(), 1);

    let back = hub.handle_lobby_input(Input::Reconnect(ReconnectInput { user_id: session.user_id, game_id }));
    assert_eq!(back.session.unwrap().user_id, session.user_id);
    assert!(matches!(back.outputs[0], Output::ReconnectedToGame(_)));
    let lost = hub.handle_lobby_input(Input::Reconnect(ReconnectInput { user_id: 1, game_id }));
    assert!(lost.outputs.is_empty() && lost.session.is_none());

    let join = hub.handle_lobby_input(Input::ConnectMeAs(ConnectMeAsInput { game: game_id, name: "bob".to_string() }));
    assert_eq!(join.outputs.len(), 2);
    assert!(matches!(join.outputs[0], Output::ConnectedToGame(_)));
    assert_eq!(join.outputs[1], Output::user_joined("bob".to_string()));
    assert_eq!(join.session.unwrap().user_name, "bob");
    assert_eq!(hub.games[0].users.len(), 2);

    let missing = hub.handle_lobby_input(Input::ConnectMeAs(ConnectMeAsInput {
        game: game_id.wrapping_add(1),
        name: "carl".to_string(),
    }));
    assert_eq!(missing.outputs, vec![Output::connect_me_failed("Game not found".to_string())]);
    assert!(missing.session.is_none());
    assert!(hub.handle_lobby_input(Input::Nill).outputs.is_empty());
}

#[test]
fn hub_forwards_game_input() {
    let mut hub = Hub { games: Vec::new() };
    let (game_id, host) = hub.host_new_game("ann".to_string());
    let r = hub.handle_game_input(
        game_id,
        host.id,
        &host.name,
        Input::DrawNumber(DrawNumberInput { draw: Draw::Specific(90) }),
    );
    assert_eq!(r, Some(Delivery::Everyone(Output::new_number(90))));
    assert_eq!(hub.games[0].snapshot.done_numbers, vec![90]);
}

#[test]
fn routing_sends_announcements_to_everyone() {
    let routed = route_outputs(vec![
        Output::claim_number_success(1),
        Output::user_joined("x".to_string()),
    ]);
    assert_eq!(
        routed,
        vec![
            Delivery::Sender(Output::claim_number_success(1)),
            Delivery::Everyone(Output::user_joined("x".to_string())),
        ]
    );
}

#[test]
fn joined_player_reconnects_as_the_same_player() {
    let mut hub = Hub { games: Vec::new() };
    let (game_id, _) = hub.host_new_game("ann".to_string());
    let join = hub.handle_lobby_input(Input::ConnectMeAs(ConnectMeAsInput { game: game_id, name: "bob".to_string() }));
    let s = join.session.unwrap();
    let back = hub.handle_lobby_input(Input::Reconnect(ReconnectInput { user_id: s.user_id, game_id }));
    assert_eq!(back.outputs.len(), 1);
    let s2 = back.session.unwrap();
    assert_eq!((s2.game_id, s2.user_id, s2.user_name.as_str()), (game_id, s.user_id, "bob"));
    match &back.outputs[0] {
        Output::ReconnectedToGame(o) => assert_eq!(o.user.name, "bob"),
        other => panic!("unexpected {:?}", other),
    }
}

#[test]
fn players_are_kept_by_id() {
    let mut g = GameInstance::host_new_game("host".to_string());
    let host = g.reconnect(g.host).unwrap();
    let a = g.join("a".to_string());
    let b = g.join("b".to_string());
    assert_eq!(g.users.len(), 3);
    assert_eq!(g.reconnect(a.id), Some(a.clone()));
    assert_eq!(g.reconnect(b.id), Some(b.clone()));
    assert_eq!(g.reconnect(host.id), Some(host));
    assert_ne!(a.id, b.id);
}

#[test]
fn hosted_games_are_kept_by_id() {
    let mut hub = Hub { games: Vec::new() };
    let (g1, _) = hub.host_new_game("h1".to_string());
    let (g2, _) = hub.host_new_game("h2".to_string());
    assert_ne!(g1, g2);
    assert_eq!(hub.games.len(), 2);
    assert!(hub.games.iter().any(|g| g.id == g1));
    assert!(hub.games.iter().any(|g| g.id == g2));
}
