use mahjong::mahjong::{Mahjong, Suit};
use std::cmp::Ordering;

#[test]
fn tiles_order_by_suit_then_rank() {
    let m9 = Mahjong::new(Suit::M, 9);
    let circles1 = Mahjong::new(Suit::P, 1);
    let s4 = Mahjong::new(Suit::S, 4);
    let z1 = Mahjong::new(Suit::Z, 1);
    assert_eq!(m9.cmp(&circles1), Ordering::Less);
    assert_eq!(circles1.cmp(&s4), Ordering::Less);
    assert_eq!(s4.cmp(&z1), Ordering::Less);
    assert_eq!(z1.cmp(&m9), Ordering::Greater);
    assert_eq!(Mahjong::new(Suit::P, 2).cmp(&Mahjong::new(Suit::P, 7)), Ordering::Less);
    assert_eq!(Mahjong::new(Suit::P, 7).cmp(&Mahjong::new(Suit::P, 2)), Ordering::Greater);
    assert_eq!(s4.cmp(&s4), Ordering::Equal);
}

#[test]
fn red_five_sorts_as_five_but_differs() {
    for suit in [Suit::M, Suit::P, Suit::S] {
        let red = Mahjong::new(suit, 0);
        let five = Mahjong::new(suit, 5);
        assert_eq!(red.cmp(&five), Ordering::Equal);
        assert_eq!(five.cmp(&red), Ordering::Equal);
        assert_ne!(red, five);
        assert_eq!(red.cmp(&Mahjong::new(suit, 4)), Ordering::Greater);
        assert_eq!(red.cmp(&Mahjong::new(suit, 6)), Ordering::Less);
    }
}

#[test]
fn ordering_is_total_over_all_valid_tiles() {
    let mut all = Vec::new();
    for suit in [Suit::M, Suit::P, Suit::S, Suit::Z] {
        for v in 0..=9i8 {
            if let Some(t) = Mahjong::try_new(suit, v) {
                all.push(t);
            }
        }
    }
    assert_eq!(all.len(), 37);
    for a in &all {
        assert_eq!(a.cmp(a), Ordering::Equal);
        for b in &all {
            assert_eq!(a.cmp(b), b.cmp(a).reverse());
            for c in &all {
                if a.cmp(b) != Ordering::Greater && b.cmp(c) != Ordering::Greater {
                    assert_ne!(a.cmp(c), Ordering::Greater);
                }
            }
        }
    }
}

#[test]
fn construction_rejects_bad_ranks() {
    assert_eq!(Mahjong::try_new(Suit::Z, 0), None);
    assert_eq!(Mahjong::try_new(Suit::Z, 8), None);
    assert_eq!(Mahjong::try_new(Suit::M, 10), None);
    assert_eq!(Mahjong::try_new(Suit::S, -1), None);
    assert_eq!(Mahjong::try_new(Suit::Z, 7), Some(Mahjong::Z(7)));
    assert_eq!(Mahjong::try_new(Suit::P, 0), Some(Mahjong::P(0)));
}

#[test]
fn display_is_rank_then_suit_letter() {
    assert_eq!(Mahjong::new(Suit::M, 1).to_string(), "1m");
    assert_eq!(Mahjong::new(Suit::P, 0).to_string(), "0p");
    assert_eq!(Mahjong::new(Suit::S, 9).to_string(), "9s");
    assert_eq!(Mahjong::new(Suit::Z, 7).to_string(), "7z");
    for suit in [Suit::M, Suit::P, Suit::S, Suit::Z] {
        for v in 0..=9i8 {
            if let Some(t) = Mahjong::try_new(suit, v) {
                assert_eq!(t.to_string(), format!("{}{}", v, suit.letter()));
            }
        }
    }
}

#[test]
fn display_of_out_of_range_values() {
    assert_eq!(Mahjong::M(-128).to_string(), "-128m");
    assert_eq!(Mahjong::Z(42).to_string(), "42z");
    assert_eq!(Mahjong::P(127).to_string(), "127p");
}

#[test]
fn accessors_and_value_changes() {
    let mut t = Mahjong::new(Suit::S, 3);
    assert_eq!(t.get_value(), 3);
    assert_eq!(t.get_suit(), Suit::S);
    assert_eq!(t.get_suit_order(), 2);
    assert_eq!(t.get_suit_string(), "s");
    assert!(!t.is_z());
    assert!(Mahjong::new(Suit::Z, 1).is_z());
    assert_eq!(t.with_value(8), Mahjong::S(8));
    t.set_value(0);
    assert_eq!(t, Mahjong::S(0));
}
