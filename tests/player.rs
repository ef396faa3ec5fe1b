use mahjong::deck::Deck;
use mahjong::mahjong::{Mahjong, Suit};
use mahjong::player::{Action, GameError, Meld, Player, SeatPosition};

const SEATS: [SeatPosition; 4] = [
    SeatPosition::East,
    SeatPosition::South,
    SeatPosition::West,
    SeatPosition::North,
];

fn next(s: SeatPosition) -> SeatPosition {
    match s {
        SeatPosition::East => SeatPosition::South,
        SeatPosition::South => SeatPosition::West,
        SeatPosition::West => SeatPosition::North,
        SeatPosition::North => SeatPosition::East,
    }
}

fn pon_hand() -> Vec<Mahjong> {
    vec![
        Mahjong::new(Suit::M, 1),
        Mahjong::new(Suit::M, 1),
        Mahjong::new(Suit::M, 2),
        Mahjong::new(Suit::M, 3),
        Mahjong::new(Suit::P, 3),
        Mahjong::new(Suit::P, 3),
        Mahjong::new(Suit::P, 4),
        Mahjong::new(Suit::S, 6),
        Mahjong::new(Suit::S, 7),
        Mahjong::new(Suit::S, 8),
        Mahjong::new(Suit::Z, 2),
        Mahjong::new(Suit::Z, 4),
        Mahjong::new(Suit::Z, 4),
    ]
}

fn deck_of(cards: Vec<Mahjong>) -> Deck {
    let mut d = Deck::new();
    d.cards = cards;
    d
}

#[test]
fn new_player_is_empty() {
    let p = Player::new(7, SeatPosition::West);
    assert_eq!(p.id, 7);
    assert_eq!(p.seat_position, SeatPosition::West);
    assert!(p.hand.is_empty());
    assert!(p.drawn_card.is_none());
    assert!(p.melds.is_empty());
    assert!(p.discarded_cards.is_empty());
}

#[test]
fn pon_scenario_and_own_seat_refusal() {
    let mut player = Player::new(1, SeatPosition::East);
    player.hand = pon_hand();
    let circles3 = Mahjong::new(Suit::P, 3);
    assert!(player.pon(circles3, &SeatPosition::South));
    assert_eq!(player.hand.len(), 11);
    assert_eq!(player.melds, vec![Meld::Pon(vec![circles3, circles3, circles3], SeatPosition::South)]);
    assert!(!player.hand.contains(&circles3));

    let mut own = Player::new(2, SeatPosition::South);
    own.hand = pon_hand();
    assert!(!own.pon(circles3, &SeatPosition::South));
    assert_eq!(own.hand, pon_hand());
    assert!(own.melds.is_empty());
}

#[test]
fn pon_needs_two_exact_copies() {
    let mut player = Player::new(1, SeatPosition::East);
    player.hand = vec![Mahjong::P(0), Mahjong::P(5), Mahjong::S(1)];
    assert!(!player.pon(Mahjong::P(5), &SeatPosition::West));
    assert_eq!(player.hand.len(), 3);
    assert!(player.melds.is_empty());

    player.hand = vec![Mahjong::P(5), Mahjong::P(5), Mahjong::P(5), Mahjong::S(1)];
    assert!(player.pon(Mahjong::P(5), &SeatPosition::West));
    assert_eq!(player.hand, vec![Mahjong::P(5), Mahjong::S(1)]);
}

#[test]
fn draw_then_discard_drawn_tile() {
    let mut deck = deck_of(vec![Mahjong::S(9), Mahjong::M(4)]);
    let mut p = Player::new(1, SeatPosition::East);
    p.hand = vec![Mahjong::M(1), Mahjong::P(2)];
    assert_eq!(p.draw_card(&mut deck), Ok(()));
    assert_eq!(p.drawn_card, Some(Mahjong::S(9)));
    assert_eq!(deck.cards, vec![Mahjong::M(4)]);
    assert_eq!(p.draw_card(&mut deck), Err(GameError::AlreadyDrawn));
    assert_eq!(deck.cards, vec![Mahjong::M(4)]);
    assert_eq!(p.discard(0), Ok(Mahjong::S(9)));
    assert_eq!(p.drawn_card, None);
    assert_eq!(p.hand, vec![Mahjong::M(1), Mahjong::P(2)]);
}

#[test]
fn discard_from_hand_swaps_in_drawn_tile() {
    let mut p = Player::new(1, SeatPosition::East);
    p.hand = vec![Mahjong::M(1), Mahjong::M(7), Mahjong::P(2)];
    p.drawn_card = Some(Mahjong::M(3));
    assert_eq!(p.discard(2), Ok(Mahjong::M(7)));
    assert_eq!(p.hand, vec![Mahjong::M(1), Mahjong::M(3), Mahjong::P(2)]);
    assert_eq!(p.drawn_card, None);
}

#[test]
fn discard_errors_leave_hand_alone() {
    let mut p = Player::new(1, SeatPosition::East);
    p.hand = vec![Mahjong::M(1), Mahjong::M(7)];
    assert_eq!(p.discard(1), Err(GameError::NothingDrawn));
    assert_eq!(p.discard(0), Err(GameError::NothingDrawn));
    p.drawn_card = Some(Mahjong::Z(1));
    assert_eq!(p.discard(3), Err(GameError::IndexOutOfRange));
    assert_eq!(p.drawn_card, Some(Mahjong::Z(1)));
    assert_eq!(p.hand, vec![Mahjong::M(1), Mahjong::M(7)]);
    assert_eq!(p.discard(2), Ok(Mahjong::M(7)));
    assert_eq!(p.hand, vec![Mahjong::M(1), Mahjong::Z(1)]);
}

#[test]
fn drawing_from_empty_wall() {
    let mut deck = Deck::new();
    let mut p = Player::new(1, SeatPosition::North);
    assert_eq!(p.draw_card(&mut deck), Err(GameError::WallExhausted));
    assert_eq!(p.drawn_card, None);
    assert_eq!(p.add_hand(&mut deck), Err(GameError::DealExhausted));
    assert!(p.hand.is_empty());
}

#[test]
fn dealing_keeps_the_hand_sorted() {
    let mut deck = deck_of(vec![
        Mahjong::Z(3),
        Mahjong::P(5),
        Mahjong::M(9),
        Mahjong::P(0),
        Mahjong::M(2),
    ]);
    let mut p = Player::new(1, SeatPosition::East);
    for _ in 0..5 {
        assert_eq!(p.add_hand(&mut deck), Ok(()));
    }
    assert_eq!(
        p.hand,
        vec![Mahjong::M(2), Mahjong::M(9), Mahjong::P(5), Mahjong::P(0), Mahjong::Z(3)]
    );
    assert!(deck.cards.is_empty());
}

#[test]
fn deal_four_hands_from_a_full_wall() {
    let mut deck = Deck::new_game();
    let mut players: Vec<Player> = SEATS.iter().enumerate().map(|(i, s)| Player::new(i as u64, *s)).collect();
    for _ in 0..13 {
        for p in players.iter_mut() {
            p.add_hand(&mut deck).unwrap();
        }
    }
    assert_eq!(deck.cards.len(), 136 - 52);
    for p in &players {
        assert_eq!(p.hand.len(), 13);
        for w in p.hand.windows(2) {
            assert_ne!(w[0].cmp(&w[1]), std::cmp::Ordering::Greater);
        }
    }
}

#[test]
fn sort_hand_orders_tiles() {
    let mut p = Player::new(1, SeatPosition::East);
    p.hand = vec![Mahjong::Z(1), Mahjong::S(3), Mahjong::M(5), Mahjong::M(0), Mahjong::M(1)];
    p.sort_hand();
    assert_eq!(
        p.hand,
        vec![Mahjong::M(1), Mahjong::M(5), Mahjong::M(0), Mahjong::S(3), Mahjong::Z(1)]
    );
}

#[test]
fn recording_discards() {
    let mut p = Player::new(1, SeatPosition::East);
    p.push_in_discarded(Mahjong::S(2));
    p.push_in_discarded(Mahjong::Z(5));
    assert_eq!(p.discarded_cards, vec![Mahjong::S(2), Mahjong::Z(5)]);
}

#[test]
fn chi_only_from_previous_seat() {
    let hand = vec![Mahjong::M(2), Mahjong::M(3), Mahjong::M(5), Mahjong::M(6)];
    let tile = Mahjong::M(4);
    for claimant in SEATS {
        for discarder in SEATS {
            let mut p = Player::new(1, claimant);
            p.hand = hand.clone();
            let runs = p.can_chi(&tile, &discarder);
            if claimant == next(discarder) {
                assert_eq!(
                    runs,
                    vec![
                        vec![Mahjong::M(2), Mahjong::M(3), Mahjong::M(4)],
                        vec![Mahjong::M(3), Mahjong::M(4), Mahjong::M(5)],
                        vec![Mahjong::M(4), Mahjong::M(5), Mahjong::M(6)],
                    ]
                );
            } else {
                assert!(runs.is_empty());
                let actions = p.get_available_actions(&tile, &discarder);
                assert!(actions.iter().all(|a| !matches!(a, Action::Chi(_))));
            }
        }
    }
}

#[test]
fn chi_needs_both_partners_in_range() {
    let mut p = Player::new(1, SeatPosition::South);
    p.hand = vec![Mahjong::P(1), Mahjong::P(2), Mahjong::P(8)];
    assert_eq!(
        p.can_chi(&Mahjong::P(3), &SeatPosition::East),
        vec![vec![Mahjong::P(1), Mahjong::P(2), Mahjong::P(3)]]
    );
    assert!(p.can_chi(&Mahjong::P(9), &SeatPosition::East).is_empty());
    p.hand = vec![Mahjong::P(7), Mahjong::P(8)];
    assert_eq!(
        p.can_chi(&Mahjong::P(9), &SeatPosition::East),
        vec![vec![Mahjong::P(7), Mahjong::P(8), Mahjong::P(9)]]
    );
    p.hand = vec![Mahjong::P(4), Mahjong::P(0)];
    assert!(p.can_chi(&Mahjong::P(6), &SeatPosition::East).is_empty());
    p.hand = vec![Mahjong::P(4), Mahjong::P(6)];
    assert!(p.can_chi(&Mahjong::P(0), &SeatPosition::East).is_empty());
    p.hand = vec![Mahjong::S(2), Mahjong::S(3)];
    assert!(p.can_chi(&Mahjong::P(4), &SeatPosition::East).is_empty());
}

#[test]
fn honours_cannot_form_runs() {
    let mut p = Player::new(1, SeatPosition::East);
    p.hand = vec![Mahjong::Z(1), Mahjong::Z(2), Mahjong::Z(4), Mahjong::Z(5)];
    assert!(p.can_chi(&Mahjong::Z(3), &SeatPosition::North).is_empty());
}

#[test]
fn available_actions_in_order() {
    let mut p = Player::new(1, SeatPosition::West);
    p.hand = vec![Mahjong::S(3), Mahjong::S(4), Mahjong::S(5), Mahjong::S(5), Mahjong::S(6)];
    let actions = p.get_available_actions(&Mahjong::S(5), &SeatPosition::South);
    assert_eq!(
        actions,
        vec![
            Action::Chi(vec![Mahjong::S(3), Mahjong::S(4), Mahjong::S(5)]),
            Action::Chi(vec![Mahjong::S(4), Mahjong::S(5), Mahjong::S(6)]),
            Action::Pon(Mahjong::S(5)),
        ]
    );
    let from_east = p.get_available_actions(&Mahjong::S(5), &SeatPosition::East);
    assert_eq!(from_east, vec![Action::Pon(Mahjong::S(5))]);
    let own = p.get_available_actions(&Mahjong::S(5), &SeatPosition::West);
    assert!(own.is_empty());
}

#[test]
fn quad_claim_with_three_copies() {
    let mut p = Player::new(1, SeatPosition::East);
    p.hand = vec![Mahjong::Z(6), Mahjong::Z(6), Mahjong::Z(6)];
    let actions = p.get_available_actions(&Mahjong::Z(6), &SeatPosition::West);
    assert_eq!(actions, vec![Action::Pon(Mahjong::Z(6)), Action::Minkan(Mahjong::Z(6))]);
    let own = p.get_available_actions(&Mahjong::Z(6), &SeatPosition::East);
    assert_eq!(own, vec![Action::Minkan(Mahjong::Z(6))]);
}

#[test]
fn red_five_does_not_count_for_a_triple() {
    let mut p = Player::new(1, SeatPosition::East);
    p.hand = vec![Mahjong::M(0), Mahjong::M(5)];
    assert!(p.get_available_actions(&Mahjong::M(5), &SeatPosition::North).is_empty());
}

#[test]
fn rendering_groups_suits() {
    let mut p = Player::new(1, SeatPosition::East);
    p.hand = pon_hand();
    assert_eq!(p.info(), "手牌: 1123m 334p 678s 244z 副露: ");
    assert!(p.pon(Mahjong::P(3), &SeatPosition::South));
    assert_eq!(p.info(), "手牌: 1123m 4p 678s 244z 副露: 333s ");
    assert_eq!(p.melds[0].string_meld_info(), "333s");
    let empty = Player::new(2, SeatPosition::West);
    assert_eq!(empty.info(), "手牌:  副露: ");
}

#[test]
fn listing_shows_each_tile() {
    let mut p = Player::new(1, SeatPosition::East);
    p.hand = vec![Mahjong::M(0), Mahjong::Z(7)];
    assert_eq!(p.to_string(), "0m 7z ");
}

#[test]
fn seat_letters() {
    let letters: Vec<String> = SEATS.iter().map(|s| s.to_string()).collect();
    assert_eq!(letters, vec!["e", "s", "w", "n"]);
    let m = Meld::Chi(vec![Mahjong::S(1), Mahjong::S(2), Mahjong::S(3)], SeatPosition::North);
    assert_eq!(m.string_meld_info(), "123n");
}

#[test]
fn chi_claim_moves_partners_into_a_meld() {
    let mut p = Player::new(1, SeatPosition::North);
    p.hand = vec![Mahjong::S(3), Mahjong::S(5), Mahjong::S(6), Mahjong::Z(1)];
    let runs = p.can_chi(&Mahjong::S(4), &SeatPosition::West);
    assert_eq!(runs.len(), 2);
    let run = runs[1].clone();
    assert!(p.chi(run.clone(), Mahjong::S(4), &SeatPosition::West));
    assert_eq!(p.hand, vec![Mahjong::S(3), Mahjong::Z(1)]);
    assert_eq!(p.melds, vec![Meld::Chi(run, SeatPosition::West)]);
    assert_eq!(p.info(), "手牌: 3s 1z 副露: 456w ");
}

#[test]
fn chi_claim_refusals() {
    let hand = vec![Mahjong::S(3), Mahjong::S(5)];
    let run = vec![Mahjong::S(3), Mahjong::S(4), Mahjong::S(5)];
    let mut wrong_seat = Player::new(1, SeatPosition::North);
    wrong_seat.hand = hand.clone();
    assert!(!wrong_seat.chi(run.clone(), Mahjong::S(4), &SeatPosition::East));
    assert_eq!(wrong_seat.hand, hand);
    let mut p = Player::new(1, SeatPosition::North);
    p.hand = hand.clone();
    let not_offered = vec![Mahjong::S(4), Mahjong::S(5), Mahjong::S(6)];
    assert!(!p.chi(not_offered, Mahjong::S(4), &SeatPosition::West));
    let short = vec![Mahjong::S(3), Mahjong::S(4)];
    assert!(!p.chi(short, Mahjong::S(4), &SeatPosition::West));
    assert_eq!(p.hand, hand);
    assert!(p.melds.is_empty());
}

#[test]
fn quad_claim_takes_three_tiles() {
    let mut p = Player::new(1, SeatPosition::East);
    p.hand = vec![Mahjong::M(2), Mahjong::Z(6), Mahjong::Z(6), Mahjong::Z(6)];
    assert!(!p.pon(Mahjong::Z(5), &SeatPosition::South));
    assert!(p.minkan(Mahjong::Z(6), &SeatPosition::South));
    assert_eq!(p.hand, vec![Mahjong::M(2)]);
    assert_eq!(
        p.melds,
        vec![Meld::Kan(vec![Mahjong::Z(6); 4], SeatPosition::South)]
    );
    assert!(!p.minkan(Mahjong::M(2), &SeatPosition::South));
    assert_eq!(p.hand, vec![Mahjong::M(2)]);
}
