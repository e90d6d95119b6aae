use tambola::game::{
    get_n_random_numbers_between, get_random_number_between_wasm, get_random_ticket_numbers,
    n_uniform_random_from, n_uniform_random_from_range, one_uniform_random_from, select_between,
    ticket_from_draws, Draw,
    GameSnapshot, PositionedNumber, Ticket, User, UserType, Winning, WinningVerifier,
};

fn pn(row: u8, column: u8, number: u8, claimed: bool) -> PositionedNumber {
    PositionedNumber { row, column, claimed, number }
}

fn winning(name: &str, verify_by: WinningVerifier, winner: Option<u128>) -> Winning {
    Winning { name: name.to_string(), verify_by, winner }
}

fn check_ticket(numbers: &[PositionedNumber]) {
    assert_eq!(numbers.len(), 15);
    for r in 0..3u8 {
        assert_eq!(numbers.iter().filter(|p| p.row == r).count(), 5);
    }
    for p in numbers {
        assert!(p.row < 3);
        assert!(p.column < 9);
        assert!(!p.claimed);
        let low = if p.column == 0 { 1 } else { p.column * 10 };
        assert!(low <= p.number && p.number < p.column * 10 + 10);
    }
    for i in 0..numbers.len() {
        for j in i + 1..numbers.len() {
            let (a, b) = (numbers[i], numbers[j]);
            assert!(a.column < b.column || (a.column == b.column && a.row < b.row && a.number < b.number));
            assert_ne!(a.number, b.number);
        }
    }
}

#[test]
fn blank_snapshot_is_empty() {
    let s = GameSnapshot::blank();
    assert!(s.done_numbers.is_empty());
    assert!(!s.started);
    assert!(s.winnings.is_empty());
}

#[test]
fn non_done_lists_the_rest_in_order() {
    let mut s = GameSnapshot::blank();
    assert_eq!(s.non_done(), (1..=90).collect::<Vec<u8>>());
    s.done_numbers = vec![5, 1, 90];
    let nd = s.non_done();
    assert_eq!(nd.len(), 87);
    assert_eq!(nd[0], 2);
    assert!(!nd.contains(&5) && !nd.contains(&90) && nd.contains(&89));
}

#[test]
fn draw_specific_available_and_taken() {
    let mut s = GameSnapshot::blank();
    assert_eq!(s.draw_number(Draw::Specific(7)), Some(7));
    assert_eq!(s.done_numbers, vec![7]);
    assert_eq!(s.draw_number(Draw::Specific(7)), None);
    assert_eq!(s.draw_number(Draw::Specific(0)), None);
    assert_eq!(s.draw_number(Draw::Specific(91)), None);
    assert_eq!(s.done_numbers, vec![7]);
}

#[test]
fn draw_random_runs_through_the_board() {
    let mut s = GameSnapshot::blank();
    for _ in 0..90 {
        let n = s.draw_number(Draw::Random).unwrap();
        assert!((1..=90).contains(&n));
    }
    let mut done = s.done_numbers.clone();
    done.sort();
    assert_eq!(done, (1..=90).collect::<Vec<u8>>());
    assert_eq!(s.draw_number(Draw::Random), None);
    assert_eq!(s.done_numbers.len(), 90);
}

#[test]
fn mark_number_done_appends() {
    let mut s = GameSnapshot::blank();
    s.mark_number_done(3);
    s.mark_number_done(3);
    assert_eq!(s.done_numbers, vec![3, 3]);
}

#[test]
fn mark_winner_sets_first_prize_of_that_name() {
    let mut s = GameSnapshot::blank();
    s.winnings = vec![
        winning("a", WinningVerifier::BullsEye, None),
        winning("b", WinningVerifier::LoveAtFirstSight, None),
        winning("b", WinningVerifier::Early(5), None),
    ];
    s.mark_winner("b".to_string(), 42);
    assert_eq!(s.winnings[0].winner, None);
    assert_eq!(s.winnings[1].winner, Some(42));
    assert_eq!(s.winnings[2].winner, None);
    assert_eq!(s.winnings[1].name, "b");
}

#[test]
fn claim_number_claims_first_unclaimed_once() {
    let mut t = Ticket { numbers: vec![pn(0, 0, 5, false), pn(1, 1, 12, false)] };
    assert!(t.claim_number(12));
    assert!(t.numbers[1].claimed);
    assert!(!t.numbers[0].claimed);
    assert!(!t.claim_number(12));
    assert!(!t.claim_number(40));
    assert_eq!(t.numbers.len(), 2);
}

#[test]
fn verify_love_at_first_sight() {
    let ticket = Ticket { numbers: vec![pn(0, 0, 5, true), pn(1, 1, 12, false)] };
    let mut game = GameSnapshot::blank();
    game.done_numbers = vec![5];
    // No prize of this kind is open: the ticket wins.
    game.winnings = vec![winning("first", WinningVerifier::LoveAtFirstSight, Some(1))];
    assert!(WinningVerifier::LoveAtFirstSight.verify(&game, 9, &ticket));
    // An open prize of the same kind blocks the claim.
    game.winnings.push(winning("again", WinningVerifier::LoveAtFirstSight, None));
    assert!(!WinningVerifier::LoveAtFirstSight.verify(&game, 9, &ticket));
    game.winnings.pop();
    // More than one number drawn.
    game.done_numbers = vec![5, 12];
    assert!(!WinningVerifier::LoveAtFirstSight.verify(&game, 9, &ticket));
    // The drawn number is not claimed on the ticket.
    game.done_numbers = vec![12];
    assert!(!WinningVerifier::LoveAtFirstSight.verify(&game, 9, &ticket));
    // Other verifiers never accept.
    game.done_numbers = vec![5];
    assert!(!WinningVerifier::BullsEye.verify(&game, 9, &ticket));
    assert!(!WinningVerifier::Line(1).verify(&game, 9, &ticket));
}

#[test]
fn fresh_tickets_are_well_formed() {
    for _ in 0..200 {
        check_ticket(&get_random_ticket_numbers());
        check_ticket(&Ticket::default().numbers);
    }
}

#[test]
fn new_user_has_name_type_and_ticket() {
    let u = User::new("ann".to_string(), UserType::Host);
    assert_eq!(u.name, "ann");
    assert_eq!(u.user_type, UserType::Host);
    check_ticket(&u.ticket.numbers);
    let v = User::new("bob".to_string(), UserType::NonHost);
    assert_ne!(u.id, v.id);
}

#[test]
fn n_random_numbers_are_sorted_distinct_in_range() {
    for _ in 0..200 {
        let v = get_n_random_numbers_between(5, 0, 9);
        assert_eq!(v.len(), 5);
        assert!(v.windows(2).all(|w| w[0] < w[1]));
        assert!(v.iter().all(|x| *x < 9));
    }
    assert_eq!(get_n_random_numbers_between(4, 10, 14), vec![10, 11, 12, 13]);
    assert_eq!(get_n_random_numbers_between(0, 50, 3), Vec::<u8>::new());
}

#[test]
fn random_number_between_is_in_range() {
    for _ in 0..100 {
        let x = get_random_number_between_wasm(3, 7);
        assert!((3..7).contains(&x));
    }
    assert_eq!(get_random_number_between_wasm(4, 5), 4);
}

#[test]
fn one_uniform_random_from_picks_a_member() {
    assert_eq!(one_uniform_random_from(vec![]), None);
    assert_eq!(one_uniform_random_from(vec![8]), Some(8));
    for _ in 0..50 {
        let x = one_uniform_random_from(vec![1, 4, 9]).unwrap();
        assert!([1, 4, 9].contains(&x));
    }
}

#[test]
fn n_uniform_random_from_cases() {
    assert_eq!(n_uniform_random_from(vec![1, 2, 3], 3), None);
    let r = n_uniform_random_from(vec![1, 2, 3, 4], 2).unwrap();
    assert_eq!(r.len(), 2);
    assert_ne!(r[0], r[1]);
    assert!(r.iter().all(|x| (1..=4).contains(x)));
    // Repeated values: only the distinct ones can come out.
    let mut d = n_uniform_random_from(vec![7, 7, 7, 8, 8], 4).unwrap();
    d.sort();
    assert_eq!(d, vec![7, 8]);
    assert_eq!(n_uniform_random_from(vec![5, 6], 0), Some(vec![]));
}

#[test]
fn n_uniform_random_from_range_cases() {
    assert_eq!(n_uniform_random_from_range(1, 3, 3), None);
    assert_eq!(n_uniform_random_from_range(5, 2, 0), None);
    let mut r = n_uniform_random_from_range(1, 3, 2).unwrap();
    assert_eq!(r.len(), 2);
    r.sort();
    r.dedup();
    assert_eq!(r.len(), 2);
    assert!(r.iter().all(|x| (1..=3).contains(x)));
    let all = n_uniform_random_from_range(10, 19, 9).unwrap();
    assert_eq!(all.len(), 9);
}

#[test]
fn claiming_keeps_other_claims_and_places() {
    let mut t = Ticket { numbers: vec![pn(0, 0, 5, true), pn(1, 1, 12, false), pn(2, 3, 31, false)] };
    let before = t.clone();
    assert!(t.claim_number(31));
    for (a, b) in before.numbers.iter().zip(t.numbers.iter()) {
        assert_eq!((a.row, a.column, a.number), (b.row, b.column, b.number));
        assert!(!a.claimed || b.claimed);
    }
    assert!(t.numbers[0].claimed && !t.numbers[1].claimed && t.numbers[2].claimed);
}

#[test]
fn select_between_keeps_first_numbers_on_zero_draws() {
    assert_eq!(select_between(3, 10, 15, &vec![0, 0, 0, 0, 0]), vec![10, 11, 12]);
    assert_eq!(select_between(0, 10, 15, &vec![0, 0, 0, 0, 0]), Vec::<u8>::new());
    assert_eq!(select_between(5, 10, 15, &vec![4, 3, 2, 1, 0]), vec![10, 11, 12, 13, 14]);
}

#[test]
fn select_between_follows_the_draws() {
    assert_eq!(select_between(2, 10, 15, &vec![4, 3, 0, 1, 0]), vec![12, 14]);
    assert_eq!(select_between(1, 0, 3, &vec![2, 1, 0]), vec![2]);
}

#[test]
fn ticket_from_draws_lays_out_columns() {
    let rows = vec![vec![0, 1, 2, 3, 4], vec![4, 5, 6, 7, 8], vec![0, 2, 4, 6, 8]];
    let cols = vec![
        vec![1, 5],
        vec![12],
        vec![21, 25],
        vec![33],
        vec![40, 44, 49],
        vec![55],
        vec![60, 66],
        vec![77],
        vec![80, 88],
        vec![],
    ];
    let t = ticket_from_draws(&rows, &cols);
    let expected = vec![
        pn(0, 0, 1, false),
        pn(2, 0, 5, false),
        pn(0, 1, 12, false),
        pn(0, 2, 21, false),
        pn(2, 2, 25, false),
        pn(0, 3, 33, false),
        pn(0, 4, 40, false),
        pn(1, 4, 44, false),
        pn(2, 4, 49, false),
        pn(1, 5, 55, false),
        pn(1, 6, 60, false),
        pn(2, 6, 66, false),
        pn(1, 7, 77, false),
        pn(1, 8, 80, false),
        pn(2, 8, 88, false),
    ];
    assert_eq!(t, expected);
    check_ticket(&t);
}

#[test]
fn user_ids_are_version_4_uuids() {
    for _ in 0..20 {
        let u = User::new("x".to_string(), UserType::NonHost);
        assert_eq!((u.id >> 76) & 15, 4);
        assert_eq!((u.id >> 62) & 3, 2);
    }
}
