use crate::mahjong::{tile, valid_rank, Mahjong, Suit};
use rand::seq::SliceRandom;
use rand::SeedableRng;
use vstd::prelude::*;

verus! {

broadcast use vstd::seq_lib::group_to_multiset_ensures;

/// The seed of the reproducible deal.
pub const FIXED_SEED: u64 = 100;

/// How many copies of a tile a standard set holds: one red five and three
/// plain fives per numeral suit, four of every other numeral rank and of
/// every honour, none of anything else.
pub open spec fn multiplicity(t: Mahjong) -> nat {
    let v = t.value() as int;
    if t.suit() == Suit::Z {
        if 1 <= v <= 7 {
            4
        } else {
            0
        }
    } else if v == 0 {
        1
    } else if v == 5 {
        3
    } else if 1 <= v <= 9 {
        4
    } else {
        0
    }
}

/// `n` copies of one tile.
pub open spec fn copies(t: Mahjong, n: nat) -> Seq<Mahjong> {
    Seq::new(n, |i: int| t)
}

/// The tiles of suit `s` with ranks 0 to `last`, in ascending rank, each
/// rank repeated as often as a standard set holds it.
pub open spec fn suit_run(s: Suit, last: int) -> Seq<Mahjong>
    decreases last + 1,
{
    if last < 0 {
        Seq::empty()
    } else {
        suit_run(s, last - 1) + copies(tile(s, last as i8), multiplicity(tile(s, last as i8)))
    }
}

/// The standard set of 136 tiles in its canonical order: suit by suit,
/// ascending rank.
pub open spec fn standard_deck() -> Seq<Mahjong> {
    suit_run(Suit::M, 9) + suit_run(Suit::P, 9) + suit_run(Suit::S, 9) + suit_run(Suit::Z, 7)
}

/// The order that a shuffle driven by `seed` gives to `tiles`.
pub uninterp spec fn seeded_order(tiles: Seq<Mahjong>, seed: u64) -> Seq<Mahjong>;

/// What one draw does to the pile: the front tile leaves it, or the empty
/// pile stays empty and yields nothing.
pub open spec fn draw_spec(cards: Seq<Mahjong>) -> (Seq<Mahjong>, Option<Mahjong>) {
    if cards.len() == 0 {
        (cards, None)
    } else {
        (cards.subrange(1, cards.len() as int), Some(cards[0]))
    }
}

/// Relies on rand's `SliceRandom::shuffle` with the thread-local generator:
/// it only swaps elements, so the same tiles remain.
#[verifier::external_body]
fn shuffle_randomly(cards: &mut Vec<Mahjong>)
    ensures
        final(cards)@.to_multiset() == old(cards)@.to_multiset(),
{
    cards.shuffle(&mut rand::thread_rng());
}

/// Relies on rand's `SliceRandom::shuffle` driven by rand_pcg's `Pcg64`
/// seeded with `seed_from_u64`: it only swaps elements, and the order it
/// picks depends on the tiles and the seed alone.
#[verifier::external_body]
fn shuffle_seeded(cards: &mut Vec<Mahjong>, seed: u64)
    ensures
        final(cards)@.to_multiset() == old(cards)@.to_multiset(),
        final(cards)@ == seeded_order(old(cards)@, seed),
{
    cards.shuffle(&mut rand_pcg::Pcg64::seed_from_u64(seed));
}

/// The draw pile.
pub struct Deck {
    pub cards: Vec<Mahjong>,
}

/// The number of copies of rank `v` in a standard set of suit `suit`.
fn copies_of(suit: Suit, v: i8) -> (r: u8)
    ensures
        r as nat == multiplicity(tile(suit, v)),
{
    match suit {
        Suit::Z => if 1 <= v && v <= 7 {
            4
        } else {
            0
        },
        _ => if v == 0 {
            1
        } else if v == 5 {
            3
        } else if 1 <= v && v <= 9 {
            4
        } else {
            0
        },
    }
}

/// Appends the standard run of one suit, ranks 0 to `last`.
fn push_suit_run(cards: &mut Vec<Mahjong>, suit: Suit, last: i8)
    requires
        0 <= last <= 9,
        old(cards)@.len() + 40 <= usize::MAX,
    ensures
        final(cards)@ == old(cards)@ + suit_run(suit, last as int),
{
    let ghost start = cards@;
    let mut v: i8 = 0;
    while v <= last
        invariant
            0 <= v <= last + 1,
            last <= 9,
            cards@ == start + suit_run(suit, v - 1),
            suit_run(suit, v - 1).len() <= 4 * v,
            start.len() + 40 <= usize::MAX,
        decreases last + 1 - v,
    {
        let n = copies_of(suit, v);
        let ghost t = tile(suit, v);
        let ghost before = cards@;
        let mut k: u8 = 0;
        while k < n
            invariant
                0 <= k <= n,
                n as nat == multiplicity(t),
                t == tile(suit, v),
                0 <= v <= 9,
                cards@ == before + copies(t, k as nat),
                before.len() + 4 <= usize::MAX,
            decreases n - k,
        {
            let m = Mahjong::new(suit, v);
            cards.push(m);
            assert(copies(t, (k + 1) as nat) =~= copies(t, k as nat).push(t));
            k = k + 1;
        }
        assert(suit_run(suit, v as int) == suit_run(suit, v - 1) + copies(t, n as nat));
        assert(cards@ =~= start + suit_run(suit, v as int));
        v = v + 1;
    }
}

impl Deck {
    /// An empty pile.
    pub fn new() -> (r: Deck)
        ensures
            r.cards@ == Seq::<Mahjong>::empty(),
    {
        Deck { cards: Vec::new() }
    }

    /// A standard set, shuffled at random.
    pub fn new_game() -> (r: Deck)
        ensures
            r.cards@.to_multiset() == standard_deck().to_multiset(),
            r.cards@.len() == 136,
    {
        let mut deck = Deck::new();
        deck.generate_cards();
        deck.shuffle();
        proof {
            lemma_standard_deck_len();
            standard_deck().to_multiset_ensures();
            deck.cards@.to_multiset_ensures();
        }
        deck
    }

    /// A standard set in the order that the fixed seed gives it, the same on
    /// every run.
    pub fn new_fixed_game() -> (r: Deck)
        ensures
            r.cards@ == seeded_order(standard_deck(), FIXED_SEED),
            r.cards@.to_multiset() == standard_deck().to_multiset(),
            r.cards@.len() == 136,
    {
        let mut deck = Deck::new();
        deck.generate_fixed_cards(FIXED_SEED);
        proof {
            lemma_standard_deck_len();
            standard_deck().to_multiset_ensures();
            deck.cards@.to_multiset_ensures();
        }
        deck
    }

    /// Replaces the pile by the standard set in canonical order.
    pub fn generate_cards(&mut self)
        ensures
            final(self).cards@ == standard_deck(),
    {
        let mut cards: Vec<Mahjong> = Vec::with_capacity(136);
        proof {
            lemma_suit_run_len(Suit::M, 9);
            lemma_suit_run_len(Suit::P, 9);
            lemma_suit_run_len(Suit::S, 9);
        }
        push_suit_run(&mut cards, Suit::M, 9);
        push_suit_run(&mut cards, Suit::P, 9);
        push_suit_run(&mut cards, Suit::S, 9);
        push_suit_run(&mut cards, Suit::Z, 7);
        self.cards = cards;
    }

    /// Replaces the pile by the standard set shuffled by `seed`.
    pub fn generate_fixed_cards(&mut self, seed: u64)
        ensures
            final(self).cards@ == seeded_order(standard_deck(), seed),
            final(self).cards@.to_multiset() == standard_deck().to_multiset(),
    {
        self.generate_cards();
        shuffle_seeded(&mut self.cards, seed);
    }

    /// Puts the pile in a random order; the same tiles stay.
    pub fn shuffle(&mut self)
        ensures
            final(self).cards@.to_multiset() == old(self).cards@.to_multiset(),
            final(self).cards@.len() == old(self).cards@.len(),
    {
        let ghost before = self.cards@;
        shuffle_randomly(&mut self.cards);
        proof {
            before.to_multiset_ensures();
            self.cards@.to_multiset_ensures();
        }
    }

    /// Takes the front tile, or `None` when the pile is empty.
    pub fn get_one_card(&mut self) -> (r: Option<Mahjong>)
        ensures
            (final(self).cards@, r) == draw_spec(old(self).cards@),
    {
        if self.cards.is_empty() {
            None
        } else {
            Some(self.cards.remove(0))
        }
    }
}

proof fn lemma_suit_run_len(s: Suit, last: int)
    requires
        -1 <= last <= 9,
    ensures
        suit_run(s, last).len() <= 4 * (last + 1),
    decreases last + 1,
{
    if last >= 0 {
        lemma_suit_run_len(s, last - 1);
    }
}

/// The standard set holds 136 tiles.
pub proof fn lemma_standard_deck_len()
    ensures
        standard_deck().len() == 136,
{
    reveal_with_fuel(suit_run, 11);
}

proof fn lemma_copies_count(t: Mahjong, n: nat, x: Mahjong)
    ensures
        copies(t, n).to_multiset().count(x) == (if x == t {
            n
        } else {
            0
        }),
    decreases n,
{
    if n == 0 {
        assert(copies(t, n) =~= Seq::<Mahjong>::empty());
        vstd::seq_lib::lemma_multiset_commutative(copies(t, n), copies(t, n));
    } else {
        lemma_copies_count(t, (n - 1) as nat, x);
        assert(copies(t, n) =~= copies(t, (n - 1) as nat).push(t));
        copies(t, (n - 1) as nat).to_multiset_ensures();
    }
}

proof fn lemma_suit_run_count(s: Suit, last: int, x: Mahjong)
    requires
        -1 <= last <= 9,
    ensures
        suit_run(s, last).to_multiset().count(x) == (if x.suit() == s && 0 <= x.value() <= last {
            multiplicity(x)
        } else {
            0
        }),
    decreases last + 1,
{
    if last < 0 {
        lemma_copies_count(x, 0, x);
        assert(suit_run(s, last) =~= copies(x, 0));
    } else {
        let t = tile(s, last as i8);
        lemma_suit_run_count(s, last - 1, x);
        lemma_copies_count(t, multiplicity(t), x);
        vstd::seq_lib::lemma_multiset_commutative(
            suit_run(s, last - 1),
            copies(t, multiplicity(t)),
        );
    }
}

/// The standard set holds 136 tiles, and each tile exactly as often as
/// `multiplicity` says: one red five, three plain fives and four of every
/// other rank per numeral suit, four of every honour.
pub proof fn lemma_standard_deck_multiplicity(t: Mahjong)
    ensures
        standard_deck().len() == 136,
        standard_deck().to_multiset().count(t) == multiplicity(t),
{
    lemma_standard_deck_len();
    let m = suit_run(Suit::M, 9);
    let p = suit_run(Suit::P, 9);
    let s = suit_run(Suit::S, 9);
    let z = suit_run(Suit::Z, 7);
    lemma_suit_run_count(Suit::M, 9, t);
    lemma_suit_run_count(Suit::P, 9, t);
    lemma_suit_run_count(Suit::S, 9, t);
    lemma_suit_run_count(Suit::Z, 7, t);
    vstd::seq_lib::lemma_multiset_commutative(m, p);
    vstd::seq_lib::lemma_multiset_commutative(m + p, s);
    vstd::seq_lib::lemma_multiset_commutative(m + p + s, z);
}

/// The pile after `k` draws.
pub open spec fn drained(cards: Seq<Mahjong>, k: nat) -> Seq<Mahjong>
    decreases k,
{
    if k == 0 {
        cards
    } else {
        draw_spec(drained(cards, (k - 1) as nat)).0
    }
}

/// Drawing from a pile of K tiles succeeds K times, yielding its tiles front
/// to back; the draw after that yields nothing and leaves the empty pile as
/// it is.
pub proof fn lemma_draw_until_exhausted(cards: Seq<Mahjong>, k: nat)
    requires
        k <= cards.len(),
    ensures
        drained(cards, k) == cards.subrange(k as int, cards.len() as int),
        k < cards.len() ==> draw_spec(drained(cards, k)).1 == Some(cards[k as int]),
        k == cards.len() ==> draw_spec(drained(cards, k)) == (
        Seq::<Mahjong>::empty(),
        None::<Mahjong>,
        ),
    decreases k,
{
    if k == 0 {
        assert(cards.subrange(0, cards.len() as int) =~= cards);
    } else {
        lemma_draw_until_exhausted(cards, (k - 1) as nat);
        assert(drained(cards, k) =~= cards.subrange(k as int, cards.len() as int));
    }
    if k == cards.len() {
        assert(drained(cards, k) =~= Seq::<Mahjong>::empty());
    }
}

} // verus!
