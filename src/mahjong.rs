use std::cmp::Ordering;
use vstd::prelude::*;
use vstd::string::StringExecFns;

verus! {

/// The four tile families: three numeral suits (characters, circles,
/// bamboo) and the honours.
#[derive(PartialEq, Eq, Structural, Clone, Copy, Debug)]
pub enum Suit {
    M,
    P,
    S,
    Z,
}

/// One physical tile: a suit carrying its rank.
///
/// A numeral suit ranks 0 to 9, where 0 is the red ("round") five: it sorts
/// as a five but is a tile of its own. Honours rank 1 to 7.
#[derive(PartialEq, Eq, Structural, Clone, Copy, Debug)]
pub enum Mahjong {
    M(i8),
    P(i8),
    S(i8),
    Z(i8),
}

/// Position of a suit in the fixed precedence: numeral suits first.
pub open spec fn suit_rank(s: Suit) -> int {
    match s {
        Suit::M => 0,
        Suit::P => 1,
        Suit::S => 2,
        Suit::Z => 3,
    }
}

/// Whether `v` is a rank that a tile of suit `s` may carry.
pub open spec fn valid_rank(s: Suit, v: int) -> bool {
    if s == Suit::Z {
        1 <= v <= 7
    } else {
        0 <= v <= 9
    }
}

/// The tile of suit `s` and rank `v`.
pub open spec fn tile(s: Suit, v: i8) -> Mahjong {
    match s {
        Suit::M => Mahjong::M(v),
        Suit::P => Mahjong::P(v),
        Suit::S => Mahjong::S(v),
        Suit::Z => Mahjong::Z(v),
    }
}

/// The one-letter name of a suit, written after a rank.
pub open spec fn suit_letter(s: Suit) -> Seq<char> {
    match s {
        Suit::M => seq!['m'],
        Suit::P => seq!['p'],
        Suit::S => seq!['s'],
        Suit::Z => seq!['z'],
    }
}

/// The text of one decimal digit.
pub open spec fn digit_text(d: int) -> Seq<char> {
    if d == 0 {
        seq!['0']
    } else if d == 1 {
        seq!['1']
    } else if d == 2 {
        seq!['2']
    } else if d == 3 {
        seq!['3']
    } else if d == 4 {
        seq!['4']
    } else if d == 5 {
        seq!['5']
    } else if d == 6 {
        seq!['6']
    } else if d == 7 {
        seq!['7']
    } else if d == 8 {
        seq!['8']
    } else {
        seq!['9']
    }
}

/// The decimal text of a natural number, without leading zeros.
pub open spec fn natural_text(n: nat) -> Seq<char>
    decreases n,
{
    if n < 10 {
        digit_text(n as int)
    } else {
        natural_text(n / 10) + digit_text((n % 10) as int)
    }
}

/// The decimal text of an integer, with a leading minus when negative.
pub open spec fn decimal_text(v: int) -> Seq<char> {
    if v < 0 {
        seq!['-'] + natural_text((-v) as nat)
    } else {
        natural_text(v as nat)
    }
}

/// How a tile is shown: its rank, then its suit letter.
pub open spec fn tile_text(t: Mahjong) -> Seq<char> {
    decimal_text(t.value() as int) + suit_letter(t.suit())
}

/// The text of a digit below ten.
fn digit_str(d: u8) -> (r: &'static str)
    requires
        d < 10,
    ensures
        r@ == digit_text(d as int),
{
    proof {
        reveal_strlit("0");
        reveal_strlit("1");
        reveal_strlit("2");
        reveal_strlit("3");
        reveal_strlit("4");
        reveal_strlit("5");
        reveal_strlit("6");
        reveal_strlit("7");
        reveal_strlit("8");
        reveal_strlit("9");
    }
    match d {
        0 => "0",
        1 => "1",
        2 => "2",
        3 => "3",
        4 => "4",
        5 => "5",
        6 => "6",
        7 => "7",
        8 => "8",
        _ => "9",
    }
}

/// Appends the decimal text of `v` to `s`.
pub(crate) fn append_decimal(s: &mut String, v: i8)
    ensures
        final(s)@ == old(s)@ + decimal_text(v as int),
{
    let n: u8 = if v < 0 {
        proof {
            reveal_strlit("-");
        }
        s.append("-");
        (-(v as i16)) as u8
    } else {
        v as u8
    };
    let ghost before = s@;
    proof {
        reveal_with_fuel(natural_text, 3);
    }
    if n >= 100 {
        s.append(digit_str(n / 100));
        s.append(digit_str((n / 10) % 10));
        s.append(digit_str(n % 10));
        assert(natural_text(n as nat) == digit_text((n / 100) as int) + digit_text(
            ((n / 10) % 10) as int,
        ) + digit_text((n % 10) as int));
    } else if n >= 10 {
        s.append(digit_str(n / 10));
        s.append(digit_str(n % 10));
    } else {
        s.append(digit_str(n));
    }
    assert(s@ == before + natural_text(n as nat));
}

impl Suit {
    /// The suit's one-letter name.
    pub fn letter(&self) -> (r: &'static str)
        ensures
            r@ == suit_letter(*self),
    {
        proof {
            reveal_strlit("m");
            reveal_strlit("p");
            reveal_strlit("s");
            reveal_strlit("z");
        }
        match self {
            Suit::M => "m",
            Suit::P => "p",
            Suit::S => "s",
            Suit::Z => "z",
        }
    }
}

impl Mahjong {
    pub open spec fn suit(self) -> Suit {
        match self {
            Mahjong::M(_) => Suit::M,
            Mahjong::P(_) => Suit::P,
            Mahjong::S(_) => Suit::S,
            Mahjong::Z(_) => Suit::Z,
        }
    }

    pub open spec fn value(self) -> i8 {
        match self {
            Mahjong::M(v) => v,
            Mahjong::P(v) => v,
            Mahjong::S(v) => v,
            Mahjong::Z(v) => v,
        }
    }

    /// The rank carries a value that its suit admits.
    pub open spec fn valid(self) -> bool {
        valid_rank(self.suit(), self.value() as int)
    }

    /// The rank used for ordering: the red five counts as a five.
    pub open spec fn order_value(self) -> int {
        if self.value() == 0 {
            5
        } else {
            self.value() as int
        }
    }

    /// The ordering of tiles: by suit precedence, then by ordering rank.
    pub open spec fn compare_spec(self, b: Mahjong) -> Ordering {
        if suit_rank(self.suit()) < suit_rank(b.suit()) {
            Ordering::Less
        } else if suit_rank(self.suit()) > suit_rank(b.suit()) {
            Ordering::Greater
        } else if self.order_value() < b.order_value() {
            Ordering::Less
        } else if self.order_value() > b.order_value() {
            Ordering::Greater
        } else {
            Ordering::Equal
        }
    }

    /// `self` sorts no later than `b`.
    pub open spec fn le(self, b: Mahjong) -> bool {
        self.compare_spec(b) != Ordering::Greater
    }

    /// The tile of the given suit and rank; the rank must suit the suit.
    pub fn new(suit: Suit, value: i8) -> (r: Mahjong)
        requires
            valid_rank(suit, value as int),
        ensures
            r == tile(suit, value),
            r.suit() == suit,
            r.value() == value,
            r.valid(),
    {
        match suit {
            Suit::M => Mahjong::M(value),
            Suit::P => Mahjong::P(value),
            Suit::S => Mahjong::S(value),
            Suit::Z => Mahjong::Z(value),
        }
    }

    /// The tile of the given suit and rank, or `None` when the rank does not
    /// suit the suit.
    pub fn try_new(suit: Suit, value: i8) -> (r: Option<Mahjong>)
        ensures
            r == (if valid_rank(suit, value as int) {
                Some(tile(suit, value))
            } else {
                None::<Mahjong>
            }),
    {
        let ok = match suit {
            Suit::Z => 1 <= value && value <= 7,
            _ => 0 <= value && value <= 9,
        };
        if ok {
            Some(Mahjong::new(suit, value))
        } else {
            None
        }
    }

    /// A tile of the same suit with another rank.
    pub fn with_value(&self, v: i8) -> (r: Mahjong)
        requires
            valid_rank(self.suit(), v as int),
        ensures
            r == tile(self.suit(), v),
    {
        match self {
            Mahjong::M(_) => Mahjong::M(v),
            Mahjong::P(_) => Mahjong::P(v),
            Mahjong::S(_) => Mahjong::S(v),
            Mahjong::Z(_) => Mahjong::Z(v),
        }
    }

    /// Compares by suit precedence, then by rank with the red five as a five.
    pub fn cmp(&self, b: &Mahjong) -> (r: Ordering)
        ensures
            r == self.compare_spec(*b),
    {
        let sa = self.get_suit_order();
        let sb = b.get_suit_order();
        if sa < sb {
            Ordering::Less
        } else if sa > sb {
            Ordering::Greater
        } else {
            let mut a = self.get_value();
            let mut c = b.get_value();
            if a == 0 {
                a = 5;
            }
            if c == 0 {
                c = 5;
            }
            if a < c {
                Ordering::Less
            } else if a > c {
                Ordering::Greater
            } else {
                Ordering::Equal
            }
        }
    }

    pub fn get_suit_order(&self) -> (r: u8)
        ensures
            r as int == suit_rank(self.suit()),
    {
        match self {
            Mahjong::M(_) => 0,
            Mahjong::P(_) => 1,
            Mahjong::S(_) => 2,
            Mahjong::Z(_) => 3,
        }
    }

    pub fn get_suit(&self) -> (r: Suit)
        ensures
            r == self.suit(),
    {
        match self {
            Mahjong::M(_) => Suit::M,
            Mahjong::P(_) => Suit::P,
            Mahjong::S(_) => Suit::S,
            Mahjong::Z(_) => Suit::Z,
        }
    }

    pub fn get_suit_string(&self) -> (r: &'static str)
        ensures
            r@ == suit_letter(self.suit()),
    {
        self.get_suit().letter()
    }

    pub fn is_z(&self) -> (r: bool)
        ensures
            r == (self.suit() == Suit::Z),
    {
        match self {
            Mahjong::Z(_) => true,
            _ => false,
        }
    }

    pub fn get_value(&self) -> (r: i8)
        ensures
            r == self.value(),
    {
        match self {
            Mahjong::M(value) => *value,
            Mahjong::P(value) => *value,
            Mahjong::S(value) => *value,
            Mahjong::Z(value) => *value,
        }
    }

    /// Gives the tile another rank of its suit.
    pub fn set_value(&mut self, new_value: i8)
        requires
            valid_rank(old(self).suit(), new_value as int),
        ensures
            *final(self) == tile(old(self).suit(), new_value),
    {
        *self = match *self {
            Mahjong::M(_) => Mahjong::M(new_value),
            Mahjong::P(_) => Mahjong::P(new_value),
            Mahjong::S(_) => Mahjong::S(new_value),
            Mahjong::Z(_) => Mahjong::Z(new_value),
        };
    }

    /// The tile as text: its rank, then its suit letter (`0p` is the red
    /// five of circles).
    pub fn to_string(&self) -> (r: String)
        ensures
            r@ == tile_text(*self),
    {
        let mut s = String::new();
        append_decimal(&mut s, self.get_value());
        s.append(self.get_suit_string());
        s
    }
}

/// The tile ordering is a total preorder: every tile compares equal to
/// itself, swapping the operands mirrors the outcome, both "less" and "no
/// later than" are transitive, and any two tiles are comparable.
pub proof fn lemma_compare_total_order(a: Mahjong, b: Mahjong, c: Mahjong)
    ensures
        a.compare_spec(a) == Ordering::Equal,
        a.compare_spec(b) == Ordering::Less <==> b.compare_spec(a) == Ordering::Greater,
        a.compare_spec(b) == Ordering::Equal <==> b.compare_spec(a) == Ordering::Equal,
        a.compare_spec(b) == Ordering::Less && b.compare_spec(c) == Ordering::Less
            ==> a.compare_spec(c) == Ordering::Less,
        a.le(b) && b.le(c) ==> a.le(c),
        a.le(b) || b.le(a),
{
}

/// The red five sorts exactly as the plain five of its suit, yet is a
/// different tile.
pub proof fn lemma_red_five_orders_as_five(s: Suit)
    requires
        s != Suit::Z,
    ensures
        tile(s, 0).compare_spec(tile(s, 5)) == Ordering::Equal,
        tile(s, 0) != tile(s, 5),
{
}

/// Every valid tile is shown as two characters: its rank digit (`0` for the
/// red five) followed by its suit letter.
pub proof fn lemma_tile_text_of_valid(s: Suit, v: i8)
    requires
        valid_rank(s, v as int),
    ensures
        tile_text(tile(s, v)) == digit_text(v as int) + suit_letter(s),
        tile_text(tile(s, v)).len() == 2,
{
    reveal_with_fuel(natural_text, 1);
}

} // verus!
