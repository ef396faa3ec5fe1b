use crate::deck::Deck;
use crate::mahjong::{decimal_text, suit_letter, suit_rank, tile, tile_text, append_decimal, Mahjong, Suit};
use vstd::prelude::*;
use vstd::string::StringExecFns;

verus! {

broadcast use vstd::seq_lib::group_to_multiset_ensures;

/// A seat at the table. Turn order runs East, South, West, North and back
/// to East.
#[derive(PartialEq, Eq, Structural, Clone, Copy, Debug)]
pub enum SeatPosition {
    East,
    South,
    West,
    North,
}

/// The seat that plays after `s`.
pub open spec fn next_seat(s: SeatPosition) -> SeatPosition {
    match s {
        SeatPosition::East => SeatPosition::South,
        SeatPosition::South => SeatPosition::West,
        SeatPosition::West => SeatPosition::North,
        SeatPosition::North => SeatPosition::East,
    }
}

/// The one-letter name of a seat.
pub open spec fn seat_letter(s: SeatPosition) -> Seq<char> {
    match s {
        SeatPosition::East => seq!['e'],
        SeatPosition::South => seq!['s'],
        SeatPosition::West => seq!['w'],
        SeatPosition::North => seq!['n'],
    }
}

impl SeatPosition {
    /// The seat's one-letter name.
    pub fn letter(&self) -> (r: &'static str)
        ensures
            r@ == seat_letter(*self),
    {
        proof {
            reveal_strlit("e");
            reveal_strlit("s");
            reveal_strlit("w");
            reveal_strlit("n");
        }
        match self {
            SeatPosition::East => "e",
            SeatPosition::South => "s",
            SeatPosition::West => "w",
            SeatPosition::North => "n",
        }
    }

    /// The seat's one-letter name as an owned string.
    pub fn to_string(&self) -> (r: String)
        ensures
            r@ == seat_letter(*self),
    {
        String::from_str(self.letter())
    }
}

/// Why an operation on a hand was refused.
#[derive(PartialEq, Eq, Structural, Clone, Copy, Debug)]
pub enum GameError {
    /// The wall is empty: the round ends in a draw.
    WallExhausted,
    /// The wall ran out while dealing the starting hands.
    DealExhausted,
    /// A tile was drawn and not yet resolved.
    AlreadyDrawn,
    /// No tile has been drawn.
    NothingDrawn,
    /// The discard position is past the end of the hand.
    IndexOutOfRange,
}

/// The three kinds of claimed sets.
#[derive(PartialEq, Eq, Structural, Clone, Copy, Debug)]
pub enum MeldKind {
    Chi,
    Pon,
    Kan,
}

/// A claimed, face-up set, with the seat its claimed tile came from.
#[derive(PartialEq, Debug)]
pub enum Meld {
    Chi(Vec<Mahjong>, SeatPosition),
    Pon(Vec<Mahjong>, SeatPosition),
    Kan(Vec<Mahjong>, SeatPosition),
}

/// A claim open to a player on a discarded tile.
#[derive(PartialEq, Debug)]
pub enum Action {
    Chi(Vec<Mahjong>),
    Pon(Mahjong),
    Minkan(Mahjong),
}

/// What an `Action` stands for.
pub enum ActionView {
    Chi(Seq<Mahjong>),
    Pon(Mahjong),
    Minkan(Mahjong),
}

impl View for Action {
    type V = ActionView;

    open spec fn view(&self) -> ActionView {
        match self {
            Action::Chi(v) => ActionView::Chi(v@),
            Action::Pon(t) => ActionView::Pon(*t),
            Action::Minkan(t) => ActionView::Minkan(*t),
        }
    }
}

/// The decimal ranks of the first `n` tiles, one after another.
pub open spec fn ranks_text(tiles: Seq<Mahjong>, n: nat) -> Seq<char>
    decreases n,
{
    if n == 0 || n > tiles.len() {
        Seq::empty()
    } else {
        ranks_text(tiles, (n - 1) as nat) + decimal_text(tiles[n - 1].value() as int)
    }
}

impl Meld {
    pub open spec fn kind(self) -> MeldKind {
        match self {
            Meld::Chi(_, _) => MeldKind::Chi,
            Meld::Pon(_, _) => MeldKind::Pon,
            Meld::Kan(_, _) => MeldKind::Kan,
        }
    }

    pub open spec fn tiles(self) -> Seq<Mahjong> {
        match self {
            Meld::Chi(v, _) => v@,
            Meld::Pon(v, _) => v@,
            Meld::Kan(v, _) => v@,
        }
    }

    pub open spec fn from(self) -> SeatPosition {
        match self {
            Meld::Chi(_, s) => s,
            Meld::Pon(_, s) => s,
            Meld::Kan(_, s) => s,
        }
    }

    /// How a meld is shown: the ranks of its tiles, then the letter of the
    /// seat it was claimed from.
    pub open spec fn text(self) -> Seq<char> {
        ranks_text(self.tiles(), self.tiles().len()) + seat_letter(self.from())
    }

    /// The meld as text: its ranks, then the source seat's letter.
    pub fn string_meld_info(&self) -> (r: String)
        ensures
            r@ == self.text(),
    {
        let mut meld_info = String::new();
        let (mahjongs, seat_position) = match self {
            Meld::Chi(cards, s) => (cards, s),
            Meld::Pon(cards, s) => (cards, s),
            Meld::Kan(cards, s) => (cards, s),
        };
        let mut i: usize = 0;
        while i < mahjongs.len()
            invariant
                i <= mahjongs@.len(),
                mahjongs@ == self.tiles(),
                meld_info@ == ranks_text(mahjongs@, i as nat),
            decreases mahjongs@.len() - i,
        {
            append_decimal(&mut meld_info, mahjongs[i].get_value());
            i = i + 1;
        }
        meld_info.append(seat_position.letter());
        meld_info
    }
}

/// The hand `s` sorted: every tile no later than those after it.
pub open spec fn sorted(s: Seq<Mahjong>) -> bool {
    forall|a: int, b: int| 0 <= a < b < s.len() ==> #[trigger] s[a].le(#[trigger] s[b])
}

/// `s` with its first copy of `t` taken out (unchanged if it holds none).
pub open spec fn without_first(s: Seq<Mahjong>, t: Mahjong) -> Seq<Mahjong>
    decreases s.len(),
{
    if s.len() == 0 {
        s
    } else if s[0] == t {
        s.drop_first()
    } else {
        seq![s[0]] + without_first(s.drop_first(), t)
    }
}

proof fn lemma_empty_count(s: Seq<Mahjong>, t: Mahjong)
    requires
        s.len() == 0,
    ensures
        s.to_multiset().count(t) == 0,
{
    vstd::seq_lib::lemma_multiset_commutative(s, s);
    assert(s + s =~= s);
}

proof fn lemma_without_first_at(s: Seq<Mahjong>, t: Mahjong, i: int)
    requires
        0 <= i < s.len(),
        s[i] == t,
        forall|j: int| 0 <= j < i ==> s[j] != t,
    ensures
        without_first(s, t) == s.remove(i),
    decreases i,
{
    if i == 0 {
        assert(s.drop_first() =~= s.remove(0));
    } else {
        assert(s[0] != t);
        let d = s.drop_first();
        assert forall|j: int| 0 <= j < i - 1 implies d[j] != t by {
            assert(d[j] == s[j + 1]);
        }
        lemma_without_first_at(d, t, i - 1);
        assert(seq![s[0]] + d.remove(i - 1) =~= s.remove(i));
    }
}

/// The number of copies of `t` in `hand`.
fn count_tile(hand: &Vec<Mahjong>, t: &Mahjong) -> (r: usize)
    ensures
        r as nat == hand@.to_multiset().count(*t),
{
    let mut c: usize = 0;
    let mut i: usize = 0;
    proof {
        lemma_empty_count(hand@.subrange(0, 0), *t);
    }
    while i < hand.len()
        invariant
            i <= hand@.len(),
            c <= i,
            c as nat == hand@.subrange(0, i as int).to_multiset().count(*t),
        decreases hand@.len() - i,
    {
        proof {
            assert(hand@.subrange(0, i + 1) =~= hand@.subrange(0, i as int).push(hand@[i as int]));
        }
        if hand[i] == *t {
            c = c + 1;
        }
        i = i + 1;
    }
    proof {
        assert(hand@.subrange(0, hand@.len() as int) =~= hand@);
    }
    c
}

/// The position of the first copy of `t` in `hand`, if any.
fn first_index(hand: &Vec<Mahjong>, t: &Mahjong) -> (r: Option<usize>)
    ensures
        match r {
            Some(i) => i < hand@.len() && hand@[i as int] == *t && forall|j: int|
                0 <= j < i ==> hand@[j] != *t,
            None => !hand@.contains(*t),
        },
{
    let mut i: usize = 0;
    while i < hand.len()
        invariant
            i <= hand@.len(),
            forall|j: int| 0 <= j < i ==> hand@[j] != *t,
        decreases hand@.len() - i,
    {
        if hand[i] == *t {
            return Some(i);
        }
        i = i + 1;
    }
    None
}

/// Takes the first copy of `t` out of `hand`, which must hold one.
fn take_first(hand: &mut Vec<Mahjong>, t: Mahjong)
    requires
        old(hand)@.contains(t),
    ensures
        final(hand)@ == without_first(old(hand)@, t),
        final(hand)@.to_multiset() == old(hand)@.to_multiset().remove(t),
        final(hand)@.len() == old(hand)@.len() - 1,
{
    let ghost h0 = hand@;
    match first_index(hand, &t) {
        Some(i) => {
            proof {
                lemma_without_first_at(h0, t, i as int);
                h0.to_multiset_ensures();
            }
            hand.remove(i);
        },
        None => {},
    }
}

/// Whether `hand` holds a copy of `t`.
fn holds(hand: &Vec<Mahjong>, t: &Mahjong) -> (r: bool)
    ensures
        r == hand@.contains(*t),
{
    match first_index(hand, t) {
        Some(_) => true,
        None => false,
    }
}

/// Inserts `x` into the sorted `v`, after any tiles that sort equal to it.
fn insert_sorted(v: &mut Vec<Mahjong>, x: Mahjong)
    requires
        sorted(old(v)@),
    ensures
        sorted(final(v)@),
        final(v)@.to_multiset() == old(v)@.to_multiset().insert(x),
        final(v)@.len() == old(v)@.len() + 1,
{
    let mut p: usize = 0;
    while p < v.len() && !matches!(x.cmp(&v[p]), std::cmp::Ordering::Less)
        invariant
            p <= v@.len(),
            forall|j: int| 0 <= j < p ==> #[trigger] v@[j].le(x),
        decreases v@.len() - p,
    {
        p = p + 1;
    }
    let ghost before = v@;
    v.insert(p, x);
    proof {
        before.to_multiset_ensures();
        assert forall|a: int, b: int| 0 <= a < b < v@.len() implies #[trigger] v@[a].le(
            #[trigger] v@[b],
        ) by {
            if b < p {
            } else if b == p {
            } else if a < p {
                assert(v@[a].le(x));
                assert(x.le(before[p as int]));
                assert(before[p as int].le(v@[b]));
            } else if a == p {
                assert(x.le(before[p as int]));
                assert(before[p as int].le(v@[b]));
            } else {
            }
        }
    }
}

/// What one tile of a hand contributes to its rendering: its rank, then its
/// suit letter where the suit's run ends (and a space unless the hand ends).
pub open spec fn hand_piece(h: Seq<Mahjong>, i: int) -> Seq<char> {
    decimal_text(h[i].value() as int) + if i + 1 >= h.len() {
        suit_letter(h[i].suit())
    } else if suit_rank(h[i + 1].suit()) != suit_rank(h[i].suit()) {
        suit_letter(h[i].suit()) + seq![' ']
    } else {
        Seq::empty()
    }
}

/// The rendering of the first `n` tiles of a hand.
pub open spec fn hand_text(h: Seq<Mahjong>, n: nat) -> Seq<char>
    decreases n,
{
    if n == 0 || n > h.len() {
        Seq::empty()
    } else {
        hand_text(h, (n - 1) as nat) + hand_piece(h, n - 1)
    }
}

/// The rendering of the first `n` melds, each followed by a space.
pub open spec fn melds_text(ms: Seq<Meld>, n: nat) -> Seq<char>
    decreases n,
{
    if n == 0 || n > ms.len() {
        Seq::empty()
    } else {
        melds_text(ms, (n - 1) as nat) + ms[n - 1].text() + seq![' ']
    }
}

/// The first `n` tiles of a hand, each shown and followed by a space.
pub open spec fn listing_text(h: Seq<Mahjong>, n: nat) -> Seq<char>
    decreases n,
{
    if n == 0 || n > h.len() {
        Seq::empty()
    } else {
        listing_text(h, (n - 1) as nat) + tile_text(h[n - 1]) + seq![' ']
    }
}

pub open spec fn hand_label() -> Seq<char> {
    seq!['手', '牌', ':', ' ']
}

pub open spec fn meld_label() -> Seq<char> {
    seq![' ', '副', '露', ':', ' ']
}

/// One player's state: concealed hand, the tile drawn this turn, claimed
/// melds, and discards (oldest first).
pub struct Player {
    pub id: u64,
    pub hand: Vec<Mahjong>,
    pub drawn_card: Option<Mahjong>,
    pub melds: Vec<Meld>,
    pub discarded_cards: Vec<Mahjong>,
    pub seat_position: SeatPosition,
}

impl Player {
    /// The rendering that `info` produces.
    pub open spec fn info_text(self) -> Seq<char> {
        hand_label() + hand_text(self.hand@, self.hand@.len()) + meld_label() + melds_text(
            self.melds@,
            self.melds@.len(),
        )
    }

    /// `self` and `o` differ in their hand and drawn tile at most.
    pub open spec fn same_table_state(self, o: Player) -> bool {
        &&& self.id == o.id
        &&& self.melds == o.melds
        &&& self.discarded_cards == o.discarded_cards
        &&& self.seat_position == o.seat_position
    }

    /// A player at `sit_pos` with an empty hand.
    pub fn new(id: u64, sit_pos: SeatPosition) -> (r: Player)
        ensures
            r.id == id,
            r.seat_position == sit_pos,
            r.hand@ == Seq::<Mahjong>::empty(),
            r.drawn_card == None::<Mahjong>,
            r.melds@ == Seq::<Meld>::empty(),
            r.discarded_cards@ == Seq::<Mahjong>::empty(),
    {
        Player {
            id,
            hand: Vec::with_capacity(13),
            drawn_card: None,
            melds: Vec::new(),
            discarded_cards: Vec::new(),
            seat_position: sit_pos,
        }
    }

    /// Draws the front tile of the wall as this turn's tile. Refused while a
    /// drawn tile is unresolved; on an empty wall nothing changes.
    pub fn draw_card(&mut self, deck: &mut Deck) -> (r: Result<(), GameError>)
        ensures
            old(self).drawn_card is Some ==> r == Err::<(), GameError>(GameError::AlreadyDrawn)
                && *final(self) == *old(self) && *final(deck) == *old(deck),
            old(self).drawn_card is None && old(deck).cards@.len() == 0 ==> r == Err::<
                (),
                GameError,
            >(GameError::WallExhausted) && *final(self) == *old(self) && final(deck).cards@ == old(
                deck,
            ).cards@,
            old(self).drawn_card is None && old(deck).cards@.len() > 0 ==> r == Ok::<
                (),
                GameError,
            >(()) && final(self).drawn_card == Some(old(deck).cards@[0]) && final(deck).cards@
                == old(deck).cards@.subrange(1, old(deck).cards@.len() as int) && final(self).hand
                == old(self).hand && final(self).same_table_state(*old(self)),
    {
        if self.drawn_card.is_some() {
            return Err(GameError::AlreadyDrawn);
        }
        match deck.get_one_card() {
            Some(drawn) => {
                self.drawn_card = Some(drawn);
                Ok(())
            },
            None => Err(GameError::WallExhausted),
        }
    }

    /// Deals the front tile of the wall straight into the hand, which is then
    /// sorted. An empty wall here is a setup fault.
    pub fn add_hand(&mut self, deck: &mut Deck) -> (r: Result<(), GameError>)
        ensures
            old(deck).cards@.len() == 0 ==> r == Err::<(), GameError>(GameError::DealExhausted)
                && *final(self) == *old(self) && final(deck).cards@ == old(deck).cards@,
            old(deck).cards@.len() > 0 ==> r == Ok::<(), GameError>(()) && final(deck).cards@
                == old(deck).cards@.subrange(1, old(deck).cards@.len() as int)
                && final(self).hand@.to_multiset() == old(self).hand@.to_multiset().insert(
                old(deck).cards@[0],
            ) && sorted(final(self).hand@) && final(self).drawn_card == old(self).drawn_card
                && final(self).same_table_state(*old(self)),
    {
        match deck.get_one_card() {
            Some(card) => {
                let ghost before = self.hand@;
                self.hand.push(card);
                proof {
                    before.to_multiset_ensures();
                }
                self.sort_hand();
                Ok(())
            },
            None => Err(GameError::DealExhausted),
        }
    }

    /// Discards the drawn tile (`index` 0) or the `index`-th tile of the
    /// sorted hand (from 1); in the second case the drawn tile takes its place
    /// and the hand is sorted again.
    pub fn discard(&mut self, index: usize) -> (r: Result<Mahjong, GameError>)
        ensures
            old(self).drawn_card is None ==> r == Err::<Mahjong, GameError>(
                GameError::NothingDrawn,
            ) && *final(self) == *old(self),
            old(self).drawn_card is Some && index == 0 ==> r == Ok::<Mahjong, GameError>(
                old(self).drawn_card->Some_0,
            ) && final(self).drawn_card is None && final(self).hand == old(self).hand
                && final(self).same_table_state(*old(self)),
            old(self).drawn_card is Some && index > old(self).hand@.len() ==> r == Err::<
                Mahjong,
                GameError,
            >(GameError::IndexOutOfRange) && *final(self) == *old(self),
            old(self).drawn_card is Some && 1 <= index <= old(self).hand@.len() ==> r == Ok::<
                Mahjong,
                GameError,
            >(old(self).hand@[index - 1]) && final(self).drawn_card is None
                && final(self).hand@.to_multiset() == old(self).hand@.remove(index - 1).push(
                old(self).drawn_card->Some_0,
            ).to_multiset() && final(self).hand@.len() == old(self).hand@.len() && sorted(
                final(self).hand@,
            ) && final(self).same_table_state(*old(self)),
    {
        let drawn_card = match self.drawn_card {
            Some(d) => d,
            None => {
                return Err(GameError::NothingDrawn);
            },
        };
        if index == 0 {
            self.drawn_card = None;
            return Ok(drawn_card);
        }
        if index > self.hand.len() {
            return Err(GameError::IndexOutOfRange);
        }
        self.drawn_card = None;
        let discarded_card = self.hand.remove(index - 1);
        self.hand.push(drawn_card);
        let ghost refilled = self.hand@;
        self.sort_hand();
        proof {
            refilled.to_multiset_ensures();
            self.hand@.to_multiset_ensures();
        }
        Ok(discarded_card)
    }

    /// Records a tile that this player discarded.
    pub fn push_in_discarded(&mut self, card: Mahjong)
        ensures
            final(self).discarded_cards@ == old(self).discarded_cards@.push(card),
            final(self).id == old(self).id,
            final(self).hand == old(self).hand,
            final(self).drawn_card == old(self).drawn_card,
            final(self).melds == old(self).melds,
            final(self).seat_position == old(self).seat_position,
    {
        self.discarded_cards.push(card);
    }

    /// Sorts the hand by the tile ordering; the same tiles stay.
    pub fn sort_hand(&mut self)
        ensures
            sorted(final(self).hand@),
            final(self).hand@.to_multiset() == old(self).hand@.to_multiset(),
            final(self).drawn_card == old(self).drawn_card,
            final(self).same_table_state(*old(self)),
    {
        let mut out: Vec<Mahjong> = Vec::with_capacity(self.hand.len());
        let mut i: usize = 0;
        proof {
            lemma_empty_seq_multiset(out@, self.hand@.subrange(0, 0));
        }
        while i < self.hand.len()
            invariant
                i <= self.hand@.len(),
                sorted(out@),
                out@.to_multiset() == self.hand@.subrange(0, i as int).to_multiset(),
            decreases self.hand@.len() - i,
        {
            proof {
                assert(self.hand@.subrange(0, i + 1) =~= self.hand@.subrange(0, i as int).push(
                    self.hand@[i as int],
                ));
            }
            insert_sorted(&mut out, self.hand[i]);
            i = i + 1;
        }
        proof {
            assert(self.hand@.subrange(0, self.hand@.len() as int) =~= self.hand@);
        }
        self.hand = out;
    }

    /// The hand, each run of one suit written as its ranks followed by the
    /// suit letter, then the melds.
    pub fn info(&self) -> (r: String)
        ensures
            r@ == self.info_text(),
    {
        proof {
            reveal_strlit("手牌: ");
            reveal_strlit(" 副露: ");
            reveal_strlit(" ");
        }
        let mut info = String::from_str("手牌: ");
        let ghost start = info@;
        let n = self.hand.len();
        let mut i: usize = 0;
        while i < n
            invariant
                n == self.hand@.len(),
                i <= n,
                info@ == start + hand_text(self.hand@, i as nat),
            decreases n - i,
        {
            proof {
                reveal_strlit(" ");
            }
            let ghost before = info@;
            let this_mahjong = self.hand[i];
            append_decimal(&mut info, this_mahjong.get_value());
            if i + 1 < n {
                if self.hand[i + 1].get_suit_order() != this_mahjong.get_suit_order() {
                    info.append(this_mahjong.get_suit_string());
                    info.append(" ");
                }
            } else {
                info.append(this_mahjong.get_suit_string());
            }
            assert(info@ =~= before + hand_piece(self.hand@, i as int));
            assert(hand_text(self.hand@, (i + 1) as nat) == hand_text(self.hand@, i as nat)
                + hand_piece(self.hand@, i as int));
            assert(info@ =~= start + hand_text(self.hand@, (i + 1) as nat));
            i = i + 1;
        }
        info.append(" 副露: ");
        let ghost middle = info@;
        let mut k: usize = 0;
        while k < self.melds.len()
            invariant
                k <= self.melds@.len(),
                info@ == middle + melds_text(self.melds@, k as nat),
            decreases self.melds@.len() - k,
        {
            proof {
                reveal_strlit(" ");
            }
            let ghost before = info@;
            let text = self.melds[k].string_meld_info();
            info.append(text.as_str());
            info.append(" ");
            assert(melds_text(self.melds@, (k + 1) as nat) == melds_text(self.melds@, k as nat)
                + self.melds@[k as int].text() + seq![' ']);
            assert(info@ =~= middle + melds_text(self.melds@, (k + 1) as nat));
            k = k + 1;
        }
        info
    }

    /// The hand's tiles, each shown and followed by a space.
    pub fn to_string(&self) -> (r: String)
        ensures
            r@ == listing_text(self.hand@, self.hand@.len()),
    {
        proof {
            reveal_strlit(" ");
        }
        let mut hand = String::new();
        let mut i: usize = 0;
        while i < self.hand.len()
            invariant
                i <= self.hand@.len(),
                hand@ == listing_text(self.hand@, i as nat),
            decreases self.hand@.len() - i,
        {
            proof {
                reveal_strlit(" ");
            }
            let text = self.hand[i].to_string();
            hand.append(text.as_str());
            hand.append(" ");
            assert(hand@ =~= listing_text(self.hand@, (i + 1) as nat));
            i = i + 1;
        }
        hand
    }
}

impl Player {
    /// The runs this player may claim with `mahjong` discarded from
    /// `seat_position`, each as its three tiles in ascending rank.
    pub fn can_chi(&self, mahjong: &Mahjong, seat_position: &SeatPosition) -> (r: Vec<Vec<Mahjong>>)
        ensures
            r@.map_values(|c: Vec<Mahjong>| c@) == chi_candidates(
                self.hand@,
                *mahjong,
                self.seat_position,
                *seat_position,
            ),
            self.seat_position != next_seat(*seat_position) ==> r@.len() == 0,
            mahjong.suit() == Suit::Z ==> r@.len() == 0,
    {
        match (self.seat_position, *seat_position) {
            (SeatPosition::East, SeatPosition::North) => (),
            (SeatPosition::South, SeatPosition::East) => (),
            (SeatPosition::West, SeatPosition::South) => (),
            (SeatPosition::North, SeatPosition::West) => (),
            _ => {
                return Vec::new();
            },
        }
        if mahjong.is_z() {
            return Vec::new();
        }
        let mut possible_combinations: Vec<Vec<Mahjong>> = Vec::new();
        let v = mahjong.get_value() as i16;
        let mut i: i16 = -1;
        while i <= 1
            invariant
                -1 <= i <= 2,
                v == mahjong.value() as i16,
                mahjong.suit() != Suit::Z,
                possible_combinations@.map_values(|c: Vec<Mahjong>| c@) == chi_upto(
                    self.hand@,
                    *mahjong,
                    (i + 1) as nat,
                ),
            decreases 2 - i,
        {
            let ghost before = possible_combinations@;
            if 1 <= v + i - 1 && v + i + 1 <= 9 {
                let lo_partner: i16 = if i == 1 {
                    v + 1
                } else {
                    v + i - 1
                };
                let hi_partner: i16 = if i == -1 {
                    v - 1
                } else {
                    v + i + 1
                };
                let a = mahjong.with_value(lo_partner as i8);
                let b = mahjong.with_value(hi_partner as i8);
                if holds(&self.hand, &a) && holds(&self.hand, &b) {
                    let mut sequence: Vec<Mahjong> = Vec::new();
                    sequence.push(mahjong.with_value((v + i - 1) as i8));
                    sequence.push(mahjong.with_value((v + i) as i8));
                    sequence.push(mahjong.with_value((v + i + 1) as i8));
                    assert(sequence@ =~= chi_run(*mahjong, i as int));
                    possible_combinations.push(sequence);
                    assert(possible_combinations@.map_values(|c: Vec<Mahjong>| c@) =~= before.map_values(
                        |c: Vec<Mahjong>| c@,
                    ).push(chi_run(*mahjong, i as int)));
                } else {
                    assert(!chi_legal(self.hand@, *mahjong, i as int));
                }
            }
            assert(chi_upto(self.hand@, *mahjong, (i + 2) as nat) == chi_upto(
                self.hand@,
                *mahjong,
                (i + 1) as nat,
            ) + chi_option(self.hand@, *mahjong, i as int));
            assert(possible_combinations@.map_values(|c: Vec<Mahjong>| c@) =~= chi_upto(
                self.hand@,
                *mahjong,
                (i + 2) as nat,
            ));
            i = i + 1;
        }
        possible_combinations
    }

    /// Claims `card`, discarded from `discard_position`, as a triple: two
    /// matching tiles leave the hand and a triple tagged with that seat joins
    /// the melds. Refused, with nothing changed, on the player's own discard
    /// or when the hand holds fewer than two matching tiles.
    pub fn pon(&mut self, card: Mahjong, discard_position: &SeatPosition) -> (r: bool)
        ensures
            r == (old(self).seat_position != *discard_position && old(self).hand@.to_multiset().count(
                card,
            ) >= 2),
            !r ==> *final(self) == *old(self),
            r ==> final(self).hand@ == without_first(without_first(old(self).hand@, card), card),
            r ==> final(self).hand@.len() == old(self).hand@.len() - 2,
            r ==> final(self).hand@.to_multiset() == old(self).hand@.to_multiset().remove(
                card,
            ).remove(card),
            r ==> final(self).melds@.drop_last() == old(self).melds@,
            r ==> final(self).melds@.len() == old(self).melds@.len() + 1,
            r ==> final(self).melds@.last().kind() == MeldKind::Pon,
            r ==> final(self).melds@.last().tiles() == seq![card, card, card],
            r ==> final(self).melds@.last().from() == *discard_position,
            r ==> final(self).id == old(self).id && final(self).drawn_card == old(self).drawn_card
                && final(self).discarded_cards == old(self).discarded_cards
                && final(self).seat_position == old(self).seat_position,
    {
        if self.seat_position == *discard_position {
            return false;
        }
        let n = count_tile(&self.hand, &card);
        if n < 2 {
            return false;
        }
        proof {
            self.hand@.to_multiset_ensures();
        }
        take_first(&mut self.hand, card);
        proof {
            self.hand@.to_multiset_ensures();
            assert(self.hand@.to_multiset().count(card) > 0);
        }
        take_first(&mut self.hand, card);
        let mut tiles: Vec<Mahjong> = Vec::new();
        tiles.push(card);
        tiles.push(card);
        tiles.push(card);
        self.melds.push(Meld::Pon(tiles, *discard_position));
        proof {
            assert(self.melds@.drop_last() =~= old(self).melds@);
            assert(self.melds@.last().tiles() =~= seq![card, card, card]);
        }
        true
    }

    /// Claims `card`, discarded from `discard_position`, to complete `run`,
    /// one of the runs that `can_chi` offers: the run's two other tiles leave
    /// the hand and the run, tagged with that seat, joins the melds. Refused,
    /// with nothing changed, when `run` is not such a run.
    pub fn chi(&mut self, run: Vec<Mahjong>, card: Mahjong, discard_position: &SeatPosition) -> (r:
        bool)
        ensures
            r == chi_claimable(
                old(self).hand@,
                card,
                old(self).seat_position,
                *discard_position,
                run@,
            ),
            !r ==> *final(self) == *old(self),
            r ==> final(self).hand@ == without_first(
                without_first(
                    old(self).hand@,
                    run_tile(card, first_partner(card.value() as int, run_offset(run@, card))),
                ),
                run_tile(card, second_partner(card.value() as int, run_offset(run@, card))),
            ),
            r ==> final(self).hand@.len() == old(self).hand@.len() - 2,
            r ==> final(self).melds@.drop_last() == old(self).melds@,
            r ==> final(self).melds@.len() == old(self).melds@.len() + 1,
            r ==> final(self).melds@.last().kind() == MeldKind::Chi,
            r ==> final(self).melds@.last().tiles() == run@,
            r ==> final(self).melds@.last().from() == *discard_position,
            r ==> final(self).id == old(self).id && final(self).drawn_card == old(self).drawn_card
                && final(self).discarded_cards == old(self).discarded_cards
                && final(self).seat_position == old(self).seat_position,
    {
        match (self.seat_position, *discard_position) {
            (SeatPosition::East, SeatPosition::North) => (),
            (SeatPosition::South, SeatPosition::East) => (),
            (SeatPosition::West, SeatPosition::South) => (),
            (SeatPosition::North, SeatPosition::West) => (),
            _ => {
                return false;
            },
        }
        if card.is_z() || run.len() != 3 {
            return false;
        }
        let v = card.get_value() as i16;
        let i: i16 = run[0].get_value() as i16 - v + 1;
        let mut ok = false;
        if -1 <= i && i <= 1 && 1 <= v + i - 1 && v + i + 1 <= 9 {
            let lo_partner: i16 = if i == 1 {
                v + 1
            } else {
                v + i - 1
            };
            let hi_partner: i16 = if i == -1 {
                v - 1
            } else {
                v + i + 1
            };
            ok = run[0] == card.with_value((v + i - 1) as i8) && run[1] == card.with_value(
                (v + i) as i8,
            ) && run[2] == card.with_value((v + i + 1) as i8) && holds(
                &self.hand,
                &card.with_value(lo_partner as i8),
            ) && holds(&self.hand, &card.with_value(hi_partner as i8));
            if ok {
                assert(run@ =~= chi_run(card, i as int));
                assert(chi_legal(self.hand@, card, i as int));
            }
        }
        proof {
            if !ok {
                assert forall|j: int|
                    -1 <= j <= 1 && chi_legal(self.hand@, card, j) implies run@ != #[trigger] chi_run(
                    card,
                    j,
                ) by {
                    if run@ == chi_run(card, j) {
                        assert(run@[0] == run_tile(card, v + j - 1));
                    }
                }
            }
        }
        if !ok {
            return false;
        }
        let a = card.with_value(if i == 1 {
            v + 1
        } else {
            v + i - 1
        } as i8);
        let b = card.with_value(if i == -1 {
            v - 1
        } else {
            v + i + 1
        } as i8);
        proof {
            self.hand@.to_multiset_ensures();
        }
        take_first(&mut self.hand, a);
        proof {
            self.hand@.to_multiset_ensures();
            assert(a != b);
            assert(self.hand@.to_multiset().count(b) > 0);
        }
        take_first(&mut self.hand, b);
        self.melds.push(Meld::Chi(run, *discard_position));
        proof {
            assert(self.melds@.drop_last() =~= old(self).melds@);
        }
        true
    }

    /// Claims `card`, discarded from `discard_position`, as a quad: three
    /// matching tiles leave the hand and a quad tagged with that seat joins
    /// the melds. Refused, with nothing changed, when the hand holds fewer
    /// than three matching tiles.
    pub fn minkan(&mut self, card: Mahjong, discard_position: &SeatPosition) -> (r: bool)
        ensures
            r == (old(self).hand@.to_multiset().count(card) >= 3),
            !r ==> *final(self) == *old(self),
            r ==> final(self).hand@ == without_first(
                without_first(without_first(old(self).hand@, card), card),
                card,
            ),
            r ==> final(self).hand@.len() == old(self).hand@.len() - 3,
            r ==> final(self).melds@.drop_last() == old(self).melds@,
            r ==> final(self).melds@.len() == old(self).melds@.len() + 1,
            r ==> final(self).melds@.last().kind() == MeldKind::Kan,
            r ==> final(self).melds@.last().tiles() == seq![card, card, card, card],
            r ==> final(self).melds@.last().from() == *discard_position,
            r ==> final(self).id == old(self).id && final(self).drawn_card == old(self).drawn_card
                && final(self).discarded_cards == old(self).discarded_cards
                && final(self).seat_position == old(self).seat_position,
    {
        let n = count_tile(&self.hand, &card);
        if n < 3 {
            return false;
        }
        proof {
            self.hand@.to_multiset_ensures();
        }
        take_first(&mut self.hand, card);
        proof {
            self.hand@.to_multiset_ensures();
            assert(self.hand@.to_multiset().count(card) > 0);
        }
        take_first(&mut self.hand, card);
        proof {
            self.hand@.to_multiset_ensures();
            assert(self.hand@.to_multiset().count(card) > 0);
        }
        take_first(&mut self.hand, card);
        let mut tiles: Vec<Mahjong> = Vec::new();
        tiles.push(card);
        tiles.push(card);
        tiles.push(card);
        tiles.push(card);
        self.melds.push(Meld::Kan(tiles, *discard_position));
        proof {
            assert(self.melds@.drop_last() =~= old(self).melds@);
            assert(self.melds@.last().tiles() =~= seq![card, card, card, card]);
        }
        true
    }

    /// Every claim open to this player on `card` discarded from
    /// `discard_seat_position`; nothing is changed.
    pub fn get_available_actions(&self, card: &Mahjong, discard_seat_position: &SeatPosition) -> (r:
        Vec<Action>)
        ensures
            r@.map_values(|a: Action| a@) == claim_options(
                self.hand@,
                *card,
                self.seat_position,
                *discard_seat_position,
            ),
    {
        let mut available_actions: Vec<Action> = Vec::new();
        let mut chi_combinations = self.can_chi(card, discard_seat_position);
        let ghost chis = chi_candidates(
            self.hand@,
            *card,
            self.seat_position,
            *discard_seat_position,
        );
        let ghost total = chis.len();
        while chi_combinations.len() > 0
            invariant
                chi_combinations@.len() <= total,
                chis.len() == total,
                available_actions@.map_values(|a: Action| a@) == chis.subrange(
                    0,
                    total - chi_combinations@.len(),
                ).map_values(|c: Seq<Mahjong>| ActionView::Chi(c)),
                chi_combinations@.map_values(|c: Vec<Mahjong>| c@) == chis.subrange(
                    total - chi_combinations@.len(),
                    total as int,
                ),
            decreases chi_combinations@.len(),
        {
            let ghost k = total - chi_combinations@.len();
            let ghost before = available_actions@;
            let ghost rest = chi_combinations@;
            assert(rest.map_values(|c: Vec<Mahjong>| c@)[0] == chis[k]);
            let combination = chi_combinations.remove(0);
            assert(combination@ == chis[k]);
            available_actions.push(Action::Chi(combination));
            assert(available_actions@.map_values(|a: Action| a@) =~= before.map_values(
                |a: Action| a@,
            ).push(ActionView::Chi(chis[k])));
            assert(chis.subrange(0, k + 1) =~= chis.subrange(0, k).push(chis[k]));
            assert(chis.subrange(0, k + 1).map_values(|c: Seq<Mahjong>| ActionView::Chi(c))
                =~= chis.subrange(0, k).map_values(|c: Seq<Mahjong>| ActionView::Chi(c)).push(
                ActionView::Chi(chis[k]),
            ));
            assert forall|j: int| 0 <= j < chi_combinations@.len() implies chi_combinations@[j]@
                == chis[k + 1 + j] by {
                assert(chi_combinations@[j] == rest[j + 1]);
                assert(rest.map_values(|c: Vec<Mahjong>| c@)[j + 1] == chis.subrange(
                    k,
                    total as int,
                )[j + 1]);
            }
            assert(available_actions@.map_values(|a: Action| a@) =~= chis.subrange(
                0,
                k + 1,
            ).map_values(|c: Seq<Mahjong>| ActionView::Chi(c)));
            assert(chi_combinations@.map_values(|c: Vec<Mahjong>| c@) =~= chis.subrange(
                k + 1,
                total as int,
            ));
        }
        assert(chis.subrange(0, total as int) =~= chis);
        let matching = count_tile(&self.hand, card);
        if matching >= 2 && self.seat_position != *discard_seat_position {
            available_actions.push(Action::Pon(*card));
        }
        if matching >= 3 {
            available_actions.push(Action::Minkan(*card));
        }
        assert(available_actions@.map_values(|a: Action| a@) =~= claim_options(
            self.hand@,
            *card,
            self.seat_position,
            *discard_seat_position,
        ));
        available_actions
    }
}

/// The tile of `t`'s suit with rank `r`.
pub open spec fn run_tile(t: Mahjong, r: int) -> Mahjong {
    tile(t.suit(), r as i8)
}

/// The run in which the discarded `t` sits at offset `i` (-1, 0 or 1) from
/// the middle: ranks v+i-1, v+i, v+i+1 where v is `t`'s rank.
pub open spec fn chi_run(t: Mahjong, i: int) -> Seq<Mahjong> {
    let v = t.value() as int;
    seq![run_tile(t, v + i - 1), run_tile(t, v + i), run_tile(t, v + i + 1)]
}

/// The lower of the two run members other than the discarded tile.
pub open spec fn first_partner(v: int, i: int) -> int {
    if i == 1 {
        v + 1
    } else {
        v + i - 1
    }
}

/// The higher of the two run members other than the discarded tile.
pub open spec fn second_partner(v: int, i: int) -> int {
    if i == -1 {
        v - 1
    } else {
        v + i + 1
    }
}

/// The run at offset `i` is legal: its ranks lie in 1 to 9 and the hand
/// holds both of its other members.
pub open spec fn chi_legal(hand: Seq<Mahjong>, t: Mahjong, i: int) -> bool {
    let v = t.value() as int;
    &&& 1 <= v + i - 1
    &&& v + i + 1 <= 9
    &&& hand.contains(run_tile(t, first_partner(v, i)))
    &&& hand.contains(run_tile(t, second_partner(v, i)))
}

/// `run` is a run that a player at `claimant` holding `hand` may claim with
/// `t` discarded from `discarder`.
pub open spec fn chi_claimable(
    hand: Seq<Mahjong>,
    t: Mahjong,
    claimant: SeatPosition,
    discarder: SeatPosition,
    run: Seq<Mahjong>,
) -> bool {
    &&& claimant == next_seat(discarder)
    &&& t.suit() != Suit::Z
    &&& exists|i: int| -1 <= i <= 1 && chi_legal(hand, t, i) && run == #[trigger] chi_run(t, i)
}

/// The offset of `t` in the run `run`, read from the run's lowest rank.
pub open spec fn run_offset(run: Seq<Mahjong>, t: Mahjong) -> int {
    run[0].value() - t.value() + 1
}

/// The run at offset `i`, if legal.
pub open spec fn chi_option(hand: Seq<Mahjong>, t: Mahjong, i: int) -> Seq<Seq<Mahjong>> {
    if chi_legal(hand, t, i) {
        seq![chi_run(t, i)]
    } else {
        Seq::empty()
    }
}

/// The legal runs among the first `n` offsets, starting at -1.
pub open spec fn chi_upto(hand: Seq<Mahjong>, t: Mahjong, n: nat) -> Seq<Seq<Mahjong>>
    decreases n,
{
    if n == 0 {
        Seq::empty()
    } else {
        chi_upto(hand, t, (n - 1) as nat) + chi_option(hand, t, n - 2)
    }
}

/// The runs that a player at `claimant` holding `hand` may claim with the
/// tile `t` discarded from `discarder`: none unless the claimant plays right
/// after the discarder and `t` is a numeral tile; otherwise every legal
/// placement, by ascending lowest rank.
pub open spec fn chi_candidates(
    hand: Seq<Mahjong>,
    t: Mahjong,
    claimant: SeatPosition,
    discarder: SeatPosition,
) -> Seq<Seq<Mahjong>> {
    if claimant != next_seat(discarder) || t.suit() == Suit::Z {
        Seq::empty()
    } else {
        chi_upto(hand, t, 3)
    }
}

/// Every claim open to a player at `claimant` holding `hand` on the tile `t`
/// discarded from `discarder`: the runs first, then a triple when the hand
/// holds two copies and the tile is someone else's, then a quad when it
/// holds three.
pub open spec fn claim_options(
    hand: Seq<Mahjong>,
    t: Mahjong,
    claimant: SeatPosition,
    discarder: SeatPosition,
) -> Seq<ActionView> {
    let copies = hand.to_multiset().count(t);
    chi_candidates(hand, t, claimant, discarder).map_values(|c: Seq<Mahjong>| ActionView::Chi(c))
        + (if copies >= 2 && claimant != discarder {
        seq![ActionView::Pon(t)]
    } else {
        Seq::empty()
    }) + (if copies >= 3 {
        seq![ActionView::Minkan(t)]
    } else {
        Seq::empty()
    })
}

/// Runs can only be claimed by the seat that plays right after the
/// discarder: from any other seat, whatever the hand, no run is offered and
/// no claim offered is a run.
pub proof fn lemma_chi_only_for_next_seat(
    hand: Seq<Mahjong>,
    t: Mahjong,
    claimant: SeatPosition,
    discarder: SeatPosition,
)
    requires
        claimant != next_seat(discarder),
    ensures
        chi_candidates(hand, t, claimant, discarder).len() == 0,
        forall|k: int|
            0 <= k < claim_options(hand, t, claimant, discarder).len() ==> !(
            #[trigger] claim_options(hand, t, claimant, discarder)[k] is Chi),
{
    let e = chi_candidates(hand, t, claimant, discarder);
    assert(e.map_values(|c: Seq<Mahjong>| ActionView::Chi(c)) =~= Seq::<ActionView>::empty());
}

proof fn lemma_concat_contains(a: Seq<Seq<Mahjong>>, b: Seq<Seq<Mahjong>>, x: Seq<Mahjong>)
    ensures
        (a + b).contains(x) <==> a.contains(x) || b.contains(x),
{
    if a.contains(x) {
        let k = choose|k: int| 0 <= k < a.len() && a[k] == x;
        assert((a + b)[k] == x);
    }
    if b.contains(x) {
        let k = choose|k: int| 0 <= k < b.len() && b[k] == x;
        assert((a + b)[a.len() + k] == x);
    }
    if (a + b).contains(x) {
        let k = choose|k: int| 0 <= k < (a + b).len() && (a + b)[k] == x;
        if k < a.len() {
            assert(a[k] == x);
        } else {
            assert(b[k - a.len()] == x);
        }
    }
}

/// A run can be claimed exactly when it is among the runs offered for the
/// same hand, tile and seats.
pub proof fn lemma_chi_claimable_iff_offered(
    hand: Seq<Mahjong>,
    t: Mahjong,
    claimant: SeatPosition,
    discarder: SeatPosition,
    run: Seq<Mahjong>,
)
    ensures
        chi_claimable(hand, t, claimant, discarder, run) <==> chi_candidates(
            hand,
            t,
            claimant,
            discarder,
        ).contains(run),
{
    if claimant == next_seat(discarder) && t.suit() != Suit::Z {
        let o1 = chi_option(hand, t, -1);
        let o2 = chi_option(hand, t, 0);
        let o3 = chi_option(hand, t, 1);
        let e = Seq::<Seq<Mahjong>>::empty();
        reveal_with_fuel(chi_upto, 4);
        assert(chi_candidates(hand, t, claimant, discarder) == e + o1 + o2 + o3);
        lemma_concat_contains(e, o1, run);
        lemma_concat_contains(e + o1, o2, run);
        lemma_concat_contains(e + o1 + o2, o3, run);
        assert(o1.contains(run) <==> chi_legal(hand, t, -1) && run == chi_run(t, -1)) by {
            if chi_legal(hand, t, -1) {
                assert(o1[0] == chi_run(t, -1));
            }
        }
        assert(o2.contains(run) <==> chi_legal(hand, t, 0) && run == chi_run(t, 0)) by {
            if chi_legal(hand, t, 0) {
                assert(o2[0] == chi_run(t, 0));
            }
        }
        assert(o3.contains(run) <==> chi_legal(hand, t, 1) && run == chi_run(t, 1)) by {
            if chi_legal(hand, t, 1) {
                assert(o3[0] == chi_run(t, 1));
            }
        }
        if chi_claimable(hand, t, claimant, discarder, run) {
            let i = choose|i: int|
                -1 <= i <= 1 && chi_legal(hand, t, i) && run == #[trigger] chi_run(t, i);
            assert(i == -1 || i == 0 || i == 1);
        }
    }
}

proof fn lemma_empty_seq_multiset(a: Seq<Mahjong>, b: Seq<Mahjong>)
    requires
        a.len() == 0,
        b.len() == 0,
    ensures
        a.to_multiset() == b.to_multiset(),
{
    assert(a =~= b);
}

} // verus!
