//! The single-byte card encoding, the rank and suit tables, and the
//! conversions between a card and its display codepoint.
//!
//! ```text
//! +---------+----------+-------+-------+-------+-------+-------+-------+
//! |    7    |    6     |   5   |   4   |   3   |   2   |   1   |   0   |
//! +---------+----------+-------+-------+-------+-------+-------+-------+
//! | Pile=0  | FaceUp   |      Suit     |              Rank             |
//! +---------+----------+-------+-------+-------+-------+-------+-------+
//! | Pile=1  | Reserved |  N = number of cards in pile [0..63]          |
//! +---------+----------+-------+-------+-------+-------+-------+-------+
//! ```

use vstd::prelude::*;

verus! {

/// Number of ranks in a suit.
pub const N_RANKS: usize = 13;

/// The bits of a card byte that hold the rank.
pub const RANK_MASK: u8 = 0x0f;

/// Number of suits.
pub const N_SUITS: usize = 4;

/// Set in a card byte when the suit is red.
pub const SUIT_IS_RED: u8 = 0x10;

/// The bit of a card byte that holds the suit's color.
pub const SUIT_COLOR_MASK: u8 = 0x10;

/// Set in a card byte when the suit's icon is rounded on top.
pub const SUIT_IS_ROUND: u8 = 0x20;

/// The bit of a card byte that holds the shape of the suit's icon.
pub const SUIT_SHAPE_MASK: u8 = 0x20;

/// The bits of a card byte that hold the suit.
pub const SUIT_MASK: u8 = 0x30;

/// The bit of a card byte that tells whether the card lies face up.
pub const FACE_UP_MASK: u8 = 0x40;

/// First codepoint of the block that holds the playing cards.
pub const CARD_UNICODE_BASE: u32 = 0x1F000;

/// The thirteen ranks, in ascending order: the position of a rank in this
/// list is its code.
#[derive(Clone, Copy, Debug, PartialEq, Eq, Structural)]
pub enum RankCode {
    /// Ace
    Ac,
    /// Two
    N2,
    /// Three
    N3,
    /// Four
    N4,
    /// Five
    N5,
    /// Six
    N6,
    /// Seven
    N7,
    /// Eight
    N8,
    /// Nine
    N9,
    /// Ten
    NT,
    /// Jack
    Ja,
    /// Queen
    Qu,
    /// King
    Ki,
}

impl RankCode {
    /// The rank's code, from 0 for the ace to 12 for the king.
    pub open spec fn index(self) -> int {
        match self {
            RankCode::Ac => 0,
            RankCode::N2 => 1,
            RankCode::N3 => 2,
            RankCode::N4 => 3,
            RankCode::N5 => 4,
            RankCode::N6 => 5,
            RankCode::N7 => 6,
            RankCode::N8 => 7,
            RankCode::N9 => 8,
            RankCode::NT => 9,
            RankCode::Ja => 10,
            RankCode::Qu => 11,
            RankCode::Ki => 12,
        }
    }

    /// The low four bits of the rank's display codepoint, as the block of
    /// playing cards lays them out: one more than the code up to the jack,
    /// two more for queen and king, because the block holds a knight, which
    /// no deck here has, between the jack and the queen.
    pub open spec fn unicode(self) -> int {
        if self.index() <= 10 {
            self.index() + 1
        } else {
            self.index() + 2
        }
    }

    /// The rank's one-character form.
    pub open spec fn repr1(self) -> Seq<char> {
        match self {
            RankCode::Ac => "A"@,
            RankCode::N2 => "2"@,
            RankCode::N3 => "3"@,
            RankCode::N4 => "4"@,
            RankCode::N5 => "5"@,
            RankCode::N6 => "6"@,
            RankCode::N7 => "7"@,
            RankCode::N8 => "8"@,
            RankCode::N9 => "9"@,
            RankCode::NT => "T"@,
            RankCode::Ja => "J"@,
            RankCode::Qu => "Q"@,
            RankCode::Ki => "K"@,
        }
    }

    /// The rank's two-character form, which is also the name of its variant.
    pub open spec fn repr2(self) -> Seq<char> {
        match self {
            RankCode::Ac => "Ac"@,
            RankCode::N2 => "N2"@,
            RankCode::N3 => "N3"@,
            RankCode::N4 => "N4"@,
            RankCode::N5 => "N5"@,
            RankCode::N6 => "N6"@,
            RankCode::N7 => "N7"@,
            RankCode::N8 => "N8"@,
            RankCode::N9 => "N9"@,
            RankCode::NT => "NT"@,
            RankCode::Ja => "Ja"@,
            RankCode::Qu => "Qu"@,
            RankCode::Ki => "Ki"@,
        }
    }

    /// The rank's full name.
    pub open spec fn name(self) -> Seq<char> {
        match self {
            RankCode::Ac => "Ace"@,
            RankCode::N2 => "Two"@,
            RankCode::N3 => "Three"@,
            RankCode::N4 => "Four"@,
            RankCode::N5 => "Five"@,
            RankCode::N6 => "Six"@,
            RankCode::N7 => "Seven"@,
            RankCode::N8 => "Eight"@,
            RankCode::N9 => "Nine"@,
            RankCode::NT => "Ten"@,
            RankCode::Ja => "Jack"@,
            RankCode::Qu => "Queen"@,
            RankCode::Ki => "King"@,
        }
    }

    /// The rank's code as a byte.
    pub fn code(self) -> (c: u8)
        ensures
            c == self.index(),
            c < N_RANKS,
    {
        match self {
            RankCode::Ac => 0,
            RankCode::N2 => 1,
            RankCode::N3 => 2,
            RankCode::N4 => 3,
            RankCode::N5 => 4,
            RankCode::N6 => 5,
            RankCode::N7 => 6,
            RankCode::N8 => 7,
            RankCode::N9 => 8,
            RankCode::NT => 9,
            RankCode::Ja => 10,
            RankCode::Qu => 11,
            RankCode::Ki => 12,
        }
    }
}

/// What is known of one rank.
#[derive(Clone, Copy, Debug)]
pub struct RankInfo {
    /// The rank itself.
    pub code: RankCode,
    /// The low four bits of the rank's display codepoint.
    pub unicode: u8,
    /// One-character form.
    pub repr1: &'static str,
    /// Two-character form.
    pub repr2: &'static str,
    /// Full name.
    pub name: &'static str,
}

impl RankInfo {
    /// The row holds exactly what the rank's own attributes say.
    pub open spec fn describes(self, rank: RankCode) -> bool {
        &&& self.code == rank
        &&& self.unicode == rank.unicode()
        &&& self.repr1@ == rank.repr1()
        &&& self.repr2@ == rank.repr2()
        &&& self.name@ == rank.name()
    }
}

/// The rank with the given code.
pub open spec fn rank_at(i: int) -> RankCode {
    if i == 0 {
        RankCode::Ac
    } else if i == 1 {
        RankCode::N2
    } else if i == 2 {
        RankCode::N3
    } else if i == 3 {
        RankCode::N4
    } else if i == 4 {
        RankCode::N5
    } else if i == 5 {
        RankCode::N6
    } else if i == 6 {
        RankCode::N7
    } else if i == 7 {
        RankCode::N8
    } else if i == 8 {
        RankCode::N9
    } else if i == 9 {
        RankCode::NT
    } else if i == 10 {
        RankCode::Ja
    } else if i == 11 {
        RankCode::Qu
    } else {
        RankCode::Ki
    }
}

/// The table of ranks: one row per rank, the row of a rank at the index
/// that is the rank's code.
pub fn rank_info() -> (vri: Vec<RankInfo>)
    ensures
        vri@.len() == N_RANKS,
        forall|i: int| 0 <= i < N_RANKS ==> (#[trigger] vri@[i]).describes(rank_at(i)),
        forall|i: int| 0 <= i < N_RANKS ==> (#[trigger] vri@[i]).code.index() == i,
{
    let mut vri: Vec<RankInfo> = Vec::new();
    vri.push(RankInfo { code: RankCode::Ac, unicode: 0x1, repr1: "A", repr2: "Ac", name: "Ace" });
    vri.push(RankInfo { code: RankCode::N2, unicode: 0x2, repr1: "2", repr2: "N2", name: "Two" });
    vri.push(RankInfo { code: RankCode::N3, unicode: 0x3, repr1: "3", repr2: "N3", name: "Three" });
    vri.push(RankInfo { code: RankCode::N4, unicode: 0x4, repr1: "4", repr2: "N4", name: "Four" });
    vri.push(RankInfo { code: RankCode::N5, unicode: 0x5, repr1: "5", repr2: "N5", name: "Five" });
    vri.push(RankInfo { code: RankCode::N6, unicode: 0x6, repr1: "6", repr2: "N6", name: "Six" });
    vri.push(RankInfo { code: RankCode::N7, unicode: 0x7, repr1: "7", repr2: "N7", name: "Seven" });
    vri.push(RankInfo { code: RankCode::N8, unicode: 0x8, repr1: "8", repr2: "N8", name: "Eight" });
    vri.push(RankInfo { code: RankCode::N9, unicode: 0x9, repr1: "9", repr2: "N9", name: "Nine" });
    vri.push(RankInfo { code: RankCode::NT, unicode: 0xA, repr1: "T", repr2: "NT", name: "Ten" });
    vri.push(RankInfo { code: RankCode::Ja, unicode: 0xB, repr1: "J", repr2: "Ja", name: "Jack" });
    vri.push(RankInfo { code: RankCode::Qu, unicode: 0xD, repr1: "Q", repr2: "Qu", name: "Queen" });
    vri.push(RankInfo { code: RankCode::Ki, unicode: 0xE, repr1: "K", repr2: "Ki", name: "King" });
    vri
}

/// The four suits. Bit 0 of a suit's code is its color (0 black, 1 red),
/// bit 1 the shape of its icon (0 pointed on top, 1 rounded on top).
#[derive(Clone, Copy, Debug, PartialEq, Eq, Structural)]
pub enum SuitCode {
    /// Spades
    Sp,
    /// Diamonds
    Di,
    /// Clubs
    Cl,
    /// Hearts
    He,
}

/// The color of a suit.
#[derive(Clone, Copy, Debug, PartialEq, Eq, Structural)]
pub enum SuitColor {
    /// Diamonds and hearts.
    Red,
    /// Spades and clubs.
    Black,
}

impl SuitCode {
    /// The suit's code, from 0 to 3.
    pub open spec fn index(self) -> int {
        match self {
            SuitCode::Sp => 0,
            SuitCode::Di => 1,
            SuitCode::Cl => 2,
            SuitCode::He => 3,
        }
    }

    /// Red where bit 0 of the code is set, black where it is clear.
    pub open spec fn color(self) -> SuitColor {
        if self.index() % 2 == 1 {
            SuitColor::Red
        } else {
            SuitColor::Black
        }
    }

    /// The suit's part of a display codepoint: the block of playing cards
    /// orders the suits spades, hearts, diamonds, clubs, from 0xA0 on.
    pub open spec fn to_uni(self) -> int {
        match self {
            SuitCode::Sp => 0xA0,
            SuitCode::He => 0xB0,
            SuitCode::Di => 0xC0,
            SuitCode::Cl => 0xD0,
        }
    }

    /// The suit's name.
    pub open spec fn name(self) -> Seq<char> {
        match self {
            SuitCode::Sp => "Spades"@,
            SuitCode::Di => "Diamonds"@,
            SuitCode::Cl => "Clubs"@,
            SuitCode::He => "Hearts"@,
        }
    }

    /// The suit's code as a byte.
    pub fn code(self) -> (c: u8)
        ensures
            c == self.index(),
            c < N_SUITS,
    {
        match self {
            SuitCode::Sp => 0,
            SuitCode::Di => 1,
            SuitCode::Cl => 2,
            SuitCode::He => 3,
        }
    }
}

/// The suit with the given code.
pub open spec fn suit_at(i: int) -> SuitCode {
    if i == 0 {
        SuitCode::Sp
    } else if i == 1 {
        SuitCode::Di
    } else if i == 2 {
        SuitCode::Cl
    } else {
        SuitCode::He
    }
}

/// The index under which the suit table keeps the way back from the suit
/// part `usuit` of a display codepoint: the low two bits of its high nibble.
pub open spec fn from_uni_index(usuit: int) -> int {
    (usuit / 16) % 4
}

/// The suit whose display part has the index `i` in the suit table: the
/// display parts 0xC0, 0xD0, 0xA0 and 0xB0 have the indices 0, 1, 2 and 3.
pub open spec fn suit_at_uni_index(i: int) -> SuitCode {
    if i == 0 {
        SuitCode::Di
    } else if i == 1 {
        SuitCode::Cl
    } else if i == 2 {
        SuitCode::Sp
    } else {
        SuitCode::He
    }
}

/// What is known of one suit, and one step of the way back from display
/// codepoints to suits.
#[derive(Clone, Copy, Debug)]
pub struct SuitInfo {
    /// The suit itself.
    pub code: SuitCode,
    /// Its color.
    pub color: SuitColor,
    /// The suit's part of a display codepoint.
    pub to_uni: u8,
    /// The suit whose display codepoints have this row's index in the low
    /// two bits of their high nibble.
    pub from_uni: SuitCode,
    /// The suit's name.
    pub name: &'static str,
}

impl SuitInfo {
    /// The row holds exactly what the suit's own attributes say.
    pub open spec fn describes(self, suit: SuitCode) -> bool {
        &&& self.code == suit
        &&& self.color == suit.color()
        &&& self.to_uni == suit.to_uni()
        &&& self.name@ == suit.name()
    }
}

/// The table of suits: one row per suit, at the index that is the suit's
/// code. The column `from_uni` leads back from display parts: the row at
/// the index that a display part gives holds the suit of that display part.
pub fn suit_info() -> (vsi: Vec<SuitInfo>)
    ensures
        vsi@.len() == N_SUITS,
        forall|i: int| 0 <= i < N_SUITS ==> (#[trigger] vsi@[i]).describes(suit_at(i)),
        forall|i: int| 0 <= i < N_SUITS ==> (#[trigger] vsi@[i]).code.index() == i,
        forall|i: int| 0 <= i < N_SUITS ==> (#[trigger] vsi@[i]).from_uni == suit_at_uni_index(i),
{
    let mut vsi: Vec<SuitInfo> = Vec::new();
    vsi.push(
        SuitInfo {
            code: SuitCode::Sp,
            color: SuitColor::Black,
            to_uni: 0xA0,
            from_uni: SuitCode::Di,
            name: "Spades",
        },
    );
    vsi.push(
        SuitInfo {
            code: SuitCode::Di,
            color: SuitColor::Red,
            to_uni: 0xC0,
            from_uni: SuitCode::Cl,
            name: "Diamonds",
        },
    );
    vsi.push(
        SuitInfo {
            code: SuitCode::Cl,
            color: SuitColor::Black,
            to_uni: 0xD0,
            from_uni: SuitCode::Sp,
            name: "Clubs",
        },
    );
    vsi.push(
        SuitInfo {
            code: SuitCode::He,
            color: SuitColor::Red,
            to_uni: 0xB0,
            from_uni: SuitCode::He,
            name: "Hearts",
        },
    );
    vsi
}

/// A card in one byte: bit 7 marks a pile marker, bit 6 tells whether the
/// card lies face up, bits 5 and 4 hold the suit, bits 3 to 0 the rank.
#[derive(Clone, Copy, Debug)]
pub struct Card {
    /// The packed byte.
    pub code: u8,
}

/// A sequence of cards.
#[derive(Clone, Debug)]
pub struct CardVec {
    /// The cards, in order.
    pub cards: Vec<Card>,
}

/// The fields of a card byte, each in a field of its own.
#[derive(Clone, Copy, Debug)]
pub struct CardUnpacked {
    /// Pile marker instead of a card.
    pub pile: bool,
    /// For a pile marker, the number of cards in the pile.
    pub pcount: u8,
    /// The card lies face up.
    pub face_up: bool,
    /// The suit's code.
    pub suit: u8,
    /// The rank's code.
    pub rank: u8,
}

/// The sizes of a deck.
#[derive(Clone, Copy, Debug)]
pub struct CardInfo {
    /// Number of suits.
    pub n_suits: usize,
    /// Number of ranks in a suit.
    pub n_ranks: usize,
    /// Number of cards: one of each rank in each suit.
    pub n_cards: usize,
}

/// The value of a flag as a bit.
pub open spec fn bit(b: bool) -> u8 {
    if b {
        1
    } else {
        0
    }
}

impl CardUnpacked {
    /// The byte that packing gives: each field shifted to its place, and all
    /// of them combined by bitwise or. The pile count takes no part.
    pub open spec fn packed(self) -> u8 {
        (bit(self.pile) << 7u8) | (bit(self.face_up) << 6u8) | (self.suit << 4u8) | self.rank
    }

    /// Suit and rank fit their bit fields, so that no field spills into
    /// another when the fields are packed.
    pub open spec fn fits(self) -> bool {
        self.suit < 4 && self.rank < 16
    }
}

impl Default for CardUnpacked {
    fn default() -> (cu: CardUnpacked)
        ensures
            cu == (CardUnpacked { pile: false, pcount: 0, face_up: false, suit: 0, rank: 0 }),
    {
        CardUnpacked { pile: false, pcount: 0, face_up: false, suit: 0, rank: 0 }
    }
}

impl Default for Card {
    fn default() -> (c: Card)
        ensures
            c.code == 0,
    {
        Card { code: 0 }
    }
}

impl Default for CardInfo {
    fn default() -> (ci: CardInfo)
        ensures
            ci == (CardInfo { n_suits: 0, n_ranks: 0, n_cards: 0 }),
    {
        CardInfo { n_suits: 0, n_ranks: 0, n_cards: 0 }
    }
}

impl Card {
    /// Bit 7: the byte is a pile marker.
    pub open spec fn is_pile(self) -> bool {
        self.code >= 128
    }

    /// Bit 6: the card lies face up.
    pub open spec fn is_face_up(self) -> bool {
        (self.code / 64) % 2 == 1
    }

    /// Bits 5 and 4: the suit's code.
    pub open spec fn suit_bits(self) -> u8 {
        (self.code / 16) % 4
    }

    /// Bits 3 to 0: the rank's code.
    pub open spec fn rank_bits(self) -> u8 {
        self.code % 16
    }

    /// Bits 5 to 0: for a pile marker, the number of cards in the pile.
    pub open spec fn pile_count(self) -> u8 {
        self.code % 64
    }

    /// The fields of the byte.
    pub open spec fn fields(self) -> CardUnpacked {
        CardUnpacked {
            pile: self.is_pile(),
            pcount: self.pile_count(),
            face_up: self.is_face_up(),
            suit: self.suit_bits(),
            rank: self.rank_bits(),
        }
    }

    /// An ordinary card: no pile marker, and a rank that exists. The face-up
    /// flag and the suit are free.
    pub open spec fn well_formed(self) -> bool {
        !self.is_pile() && self.rank_bits() < N_RANKS
    }

    /// The card with its face-up flag set to `up` and every other bit kept.
    pub open spec fn with_face_up(self, up: bool) -> Card {
        Card { code: (self.code - 64 * bit(self.is_face_up()) + 64 * bit(up)) as u8 }
    }

    /// The sizes of a deck: 4 suits of 13 ranks, 52 cards.
    pub fn info() -> (ci: CardInfo)
        ensures
            ci.n_suits == N_SUITS,
            ci.n_ranks == N_RANKS,
            ci.n_cards == N_SUITS * N_RANKS,
            ci.n_cards == 52,
    {
        CardInfo { n_suits: N_SUITS, n_ranks: N_RANKS, n_cards: N_SUITS * N_RANKS }
    }

    /// Sets the face-up flag to `up` and leaves every other bit as it was.
    /// The flag is cleared and then filled from `up` through a mask, without
    /// a branch on `up`.
    pub fn set_face_up(&mut self, up: bool)
        ensures
            *final(self) == old(self).with_face_up(up),
            final(self).is_face_up() == up,
            final(self).is_pile() == old(self).is_pile(),
            final(self).suit_bits() == old(self).suit_bits(),
            final(self).rank_bits() == old(self).rank_bits(),
    {
        let v: u8 = crate::misc::bool_to_allbits(up);
        let m: u8 = FACE_UP_MASK;
        let before: u8 = self.code;
        let after: u8 = (before & !m) | (v & m);
        assert(m == 0x40 && (v == 0xff || v == 0x00) && after == (before & !m) | (v & m) ==> {
            &&& after == before - 64 * ((before / 64) % 2) + (if v == 0xff { 64int } else { 0int })
            &&& (after / 64) % 2 == (if v == 0xff { 1int } else { 0int })
            &&& (after >= 128) == (before >= 128)
            &&& (after / 16) % 4 == (before / 16) % 4
            &&& after % 16 == before % 16
        }) by (bit_vector);
        self.code = after;
    }

    /// Splits the byte into its fields.
    pub fn unpack(&self) -> (cu: CardUnpacked)
        ensures
            cu == self.fields(),
    {
        let c: u8 = self.code;
        assert(((c & 0x80) != 0) == (c >= 128)) by (bit_vector);
        assert((c & 0x3f) >> 0u8 == c % 64) by (bit_vector);
        assert(((c & 0x40) != 0) == ((c / 64) % 2 == 1)) by (bit_vector);
        assert((c & 0x30) >> 4u8 == (c / 16) % 4) by (bit_vector);
        assert((c & 0x0f) >> 0u8 == c % 16) by (bit_vector);
        CardUnpacked {
            pile: (c & 0x80) != 0,
            pcount: (c & 0x3f) >> 0u8,
            face_up: (c & 0x40) != 0,
            suit: (c & 0x30) >> 4u8,
            rank: (c & 0x0f) >> 0u8,
        }
    }

    /// Packs the fields into one byte. Where suit and rank fit their bit
    /// fields, the byte holds each field in its place, and the pile count,
    /// which is not packed, reads back as what bits 5 to 0 hold.
    pub fn pack(cu: &CardUnpacked) -> (c: Card)
        ensures
            c.code == cu.packed(),
            cu.fits() ==> c.code == 128 * bit(cu.pile) + 64 * bit(cu.face_up) + 16 * cu.suit
                + cu.rank,
            cu.fits() ==> c.fields() == (CardUnpacked {
                pcount: (16 * cu.suit + cu.rank) as u8,
                ..*cu
            }),
    {
        let pile: u8 = cu.pile as u8;
        let face_up: u8 = cu.face_up as u8;
        let code: u8 = 0 | (pile << 7u8) | (face_up << 6u8) | (cu.suit << 4u8) | (cu.rank << 0u8);
        proof {
            lemma_packed_fields(*cu);
            let s: u8 = cu.suit;
            let r: u8 = cu.rank;
            assert(0 | (pile << 7u8) | (face_up << 6u8) | (s << 4u8) | (r << 0u8) == (pile << 7u8) | (
            face_up << 6u8) | (s << 4u8) | r) by (bit_vector);
        }
        Card { code }
    }

    /// True for an ordinary card: the pile marker is clear and the rank is
    /// one of the thirteen. The suit needs no test, since every value of its
    /// two bits is a suit.
    pub fn valid(&self) -> (ok: bool)
        ensures
            ok == self.well_formed(),
    {
        let up: CardUnpacked = self.unpack();
        !up.pile && up.rank < N_RANKS as u8
    }

    /// True where the two cards have the same color: the color is bit 0 of
    /// the suit's code, and the two bytes are compared in that bit alone.
    pub fn same_color(&self, other: &Card) -> (same: bool)
        ensures
            same == (self.suit_bits() % 2 == other.suit_bits() % 2),
    {
        let a: u8 = self.code;
        let b: u8 = other.code;
        assert((0 == ((a ^ b) & 0x10)) == (((a / 16) % 4) % 2 == ((b / 16) % 4) % 2))
            by (bit_vector);
        0 == ((a ^ b) & SUIT_COLOR_MASK)
    }

    /// True where `other` has the rank that follows this card's rank. The
    /// ranks do not wrap round: no card follows a king.
    pub fn rank_next(&self, other: Card) -> (next: bool)
        ensures
            next == (self.rank_bits() + 1 == other.rank_bits()),
    {
        let a: u8 = self.code;
        let b: u8 = other.code;
        assert(a & 0x0f == a % 16 && b & 0x0f == b % 16) by (bit_vector);
        let rs: u8 = a & RANK_MASK;
        let ro: u8 = b & RANK_MASK;
        rs + 1 == ro
    }
}

/// Where suit and rank fit their bit fields, the packed byte is the sum of
/// the fields at their places, and each field reads back from it.
pub proof fn lemma_packed_fields(cu: CardUnpacked)
    ensures
        cu.fits() ==> cu.packed() == 128 * bit(cu.pile) + 64 * bit(cu.face_up) + 16 * cu.suit
            + cu.rank,
        cu.fits() ==> (Card { code: cu.packed() }).fields() == (CardUnpacked {
            pcount: (16 * cu.suit + cu.rank) as u8,
            ..cu
        }),
{
    let p: u8 = bit(cu.pile);
    let f: u8 = bit(cu.face_up);
    let s: u8 = cu.suit;
    let r: u8 = cu.rank;
    let c: u8 = (p << 7u8) | (f << 6u8) | (s << 4u8) | r;
    assert(c == cu.packed());
    assert(p < 2 && f < 2 && s < 4 && r < 16 && c == (p << 7u8) | (f << 6u8) | (s << 4u8) | r ==> {
        &&& c == 128 * p + 64 * f + 16 * s + r
        &&& (c >= 128) == (p == 1)
        &&& ((c / 64) % 2 == 1) == (f == 1)
        &&& (c / 16) % 4 == s
        &&& c % 16 == r
        &&& c % 64 == 16 * s + r
    }) by (bit_vector);
}

/// Unpacking a byte and packing the fields again gives the byte back,
/// whatever the byte holds.
pub proof fn lemma_unpack_then_pack(c: Card)
    ensures
        c.fields().fits(),
        c.fields().packed() == c.code,
{
    let b: u8 = c.code;
    let p: u8 = bit(c.is_pile());
    let f: u8 = bit(c.is_face_up());
    let s: u8 = c.suit_bits();
    let r: u8 = c.rank_bits();
    assert(p == b / 128 && f == (b / 64) % 2);
    assert(p == b / 128 && f == (b / 64) % 2 && s == (b / 16) % 4 && r == b % 16 ==> (p << 7u8) | (f
        << 6u8) | (s << 4u8) | r == b) by (bit_vector);
}

/// Round trip from a card: for every ordinary card, unpacking, packing and
/// unpacking again gives the fields that the first unpacking gave.
pub proof fn law_unpack_pack_unpack(c: Card)
    requires
        c.well_formed(),
    ensures
        (Card { code: c.fields().packed() }).fields() == c.fields(),
{
    lemma_unpack_then_pack(c);
}

/// Round trip from the fields: where the flags are free, the suit is one of
/// the four and the rank fits its four bits, packing and unpacking gives
/// back pile flag, face-up flag, suit and rank.
pub proof fn law_pack_unpack(cu: CardUnpacked)
    requires
        cu.fits(),
    ensures
        (Card { code: cu.packed() }).fields().pile == cu.pile,
        (Card { code: cu.packed() }).fields().face_up == cu.face_up,
        (Card { code: cu.packed() }).fields().suit == cu.suit,
        (Card { code: cu.packed() }).fields().rank == cu.rank,
{
    lemma_packed_fields(cu);
}

/// Color: two cards have the same color exactly where bit 0 of their suit
/// codes agrees, which is where their suits have the same color.
pub proof fn law_same_color(a: Card, b: Card)
    ensures
        (a.suit_bits() % 2 == b.suit_bits() % 2) == (suit_at(a.suit_bits() as int).color()
            == suit_at(b.suit_bits() as int).color()),
{
}

/// No successor of the king: among ordinary cards none has the rank that
/// follows a king.
pub proof fn law_king_has_no_next(king: Card, other: Card)
    requires
        king.rank_bits() == RankCode::Ki.index(),
        other.well_formed(),
    ensures
        !(king.rank_bits() + 1 == other.rank_bits()),
{
}

/// A Unicode scalar value: a code point up to 0x10FFFF that is no surrogate.
pub open spec fn is_scalar_value(u: u32) -> bool {
    u <= 0xD7FF || (0xE000 <= u && u <= 0x10FFFF)
}

/// `char::from_u32` of the standard library, which Verus does not know: it
/// returns the character with the code point `u` where `u` is a Unicode
/// scalar value, and `None` where it is not.
#[verifier::external_body]
fn char_from_u32(u: u32) -> (r: Option<char>)
    ensures
        r.is_some() == is_scalar_value(u),
        r.is_some() ==> r.unwrap() as u32 == u,
{
    char::from_u32(u)
}

/// The suit that the suit table leads back to from the display part
/// `usuit`: the one kept under the index that `usuit` gives.
pub open spec fn suit_from_uni(usuit: int) -> SuitCode {
    suit_at_uni_index(from_uni_index(usuit))
}

/// The rank whose display part is `urank`, if there is one. The display
/// parts 0, 12 (the knight) and 15 belong to no rank.
pub open spec fn rank_from_uni(urank: int) -> Option<RankCode> {
    if 1 <= urank <= 11 {
        Some(rank_at(urank - 1))
    } else if 13 <= urank <= 14 {
        Some(rank_at(urank - 2))
    } else {
        None
    }
}

/// The code point `u` is the display codepoint of a card: it lies in the
/// 256 code points from the base on, its suit part is one of the four, and
/// its rank part belongs to a rank.
pub open spec fn is_card_codepoint(u: int) -> bool {
    &&& CARD_UNICODE_BASE <= u < CARD_UNICODE_BASE + 0x100
    &&& 0xA0 <= u % 256 - u % 16 <= 0xD0
    &&& rank_from_uni(u % 16) is Some
}

/// The card that the display codepoint `u` stands for: face down, no pile
/// marker, with the suit and the rank to which the parts of `u` belong.
pub open spec fn card_from_display(u: int) -> Card {
    Card {
        code: (16 * suit_from_uni(u % 256 - u % 16).index() + rank_from_uni(
            u % 16,
        ).unwrap().index()) as u8,
    }
}

/// The code of the suit that the suit table leads back to from the display
/// part `usuit`: the row at the index that the low two bits of the high
/// nibble give holds it.
fn suit_of_display(usuit: u8) -> (suit: u8)
    ensures
        suit == suit_from_uni(usuit as int).index(),
        suit < N_SUITS,
{
    let vsi: Vec<SuitInfo> = suit_info();
    assert((usuit >> 4u8) & 0x3 == (usuit / 16) % 4) by (bit_vector);
    let isuit: u8 = (usuit >> 4u8) & 0x3;
    assert(vsi@[isuit as int].from_uni == suit_at_uni_index(isuit as int));
    vsi[isuit as usize].from_uni.code()
}

/// The code of the rank whose display part is `urank`, found by a search
/// through the rank table from its first row on.
fn rank_of_display(urank: u8) -> (rank: u8)
    requires
        rank_from_uni(urank as int) is Some,
    ensures
        rank == rank_from_uni(urank as int).unwrap().index(),
        rank < N_RANKS,
{
    let vri: Vec<RankInfo> = rank_info();
    let mut i: usize = 0;
    while i < vri.len() && vri[i].unicode != urank
        invariant
            i <= N_RANKS,
            vri@.len() == N_RANKS,
            forall|j: int| 0 <= j < i ==> (#[trigger] vri@[j]).unicode != urank,
        decreases N_RANKS - i,
    {
        i += 1;
    }
    let ghost wanted: RankCode = rank_from_uni(urank as int).unwrap();
    assert(i < N_RANKS && vri@[i as int].code == wanted) by {
        lemma_rank_uni_inverse(wanted);
        let k: int = wanted.index();
        assert(vri@[k].describes(rank_at(k)));
        assert(i <= k);
        assert(vri@[i as int].describes(rank_at(i as int)));
        lemma_rank_uni_inverse(rank_at(i as int));
    }
    vri[i].code.code()
}

impl Card {
    /// The card's display codepoint: the base, the suit's part and the rank's
    /// part. The three occupy different bits, so their sum is their bitwise
    /// or.
    pub open spec fn display_codepoint(self) -> int {
        CARD_UNICODE_BASE + suit_at(self.suit_bits() as int).to_uni() + rank_at(
            self.rank_bits() as int,
        ).unicode()
    }

    /// The character that shows the card. The card's rank must be one of the
    /// thirteen; the flags play no part.
    pub fn to_unicode(&self) -> (c: char)
        requires
            self.rank_bits() < N_RANKS,
        ensures
            c as u32 == self.display_codepoint(),
    {
        let up: CardUnpacked = self.unpack();
        let vsi: Vec<SuitInfo> = suit_info();
        let vri: Vec<RankInfo> = rank_info();
        let usuit: u32 = vsi[up.suit as usize].to_uni as u32;
        let urank: u32 = vri[up.rank as usize].unicode as u32;
        proof {
            let suit: SuitCode = suit_at(up.suit as int);
            let rank: RankCode = rank_at(up.rank as int);
            assert(vsi@[up.suit as int].describes(suit));
            assert(vri@[up.rank as int].describes(rank));
            lemma_suit_uni_inverse(suit);
            lemma_rank_uni_inverse(rank);
            assert(usuit == suit.to_uni() && urank == rank.unicode());
            assert(usuit == 0xA0 || usuit == 0xB0 || usuit == 0xC0 || usuit == 0xD0);
        }
        let u: u32 = CARD_UNICODE_BASE | usuit | urank;
        assert((usuit == 0xA0 || usuit == 0xB0 || usuit == 0xC0 || usuit == 0xD0) && urank < 16
            ==> 0x1F000u32 | usuit | urank == 0x1F000 + usuit + urank) by (bit_vector);
        assert(u == self.display_codepoint());
        assert(is_scalar_value(u));
        let found: Option<char> = char_from_u32(u);
        found.unwrap()
    }

    /// True where the character is the display codepoint of a card: what
    /// `from_unicode` asks of its argument.
    pub fn is_card_unicode(c: char) -> (ok: bool)
        ensures
            ok == is_card_codepoint(c as u32 as int),
    {
        let u: u32 = c as u32;
        if u < CARD_UNICODE_BASE || u >= CARD_UNICODE_BASE + 0x100 {
            return false;
        }
        let urank: u32 = u % 16;
        let usuit: u32 = u % 256 - urank;
        0xA0 <= usuit && usuit <= 0xD0 && ((1 <= urank && urank <= 11) || (13 <= urank && urank
            <= 14))
    }

    /// The card that the character shows: face down and no pile marker. The
    /// character must be the display codepoint of a card, which
    /// `is_card_unicode` tests. The suit is looked
    /// up in the suit table; the rank is searched for in the rank table,
    /// which holds no column that leads back from display parts.
    pub fn from_unicode(c: char) -> (card: Card)
        requires
            is_card_codepoint(c as u32 as int),
        ensures
            card == card_from_display(c as u32 as int),
            card.well_formed(),
            !card.is_face_up(),
    {
        let u: u32 = c as u32;
        assert(u & 0xF0 == u % 256 - u % 16 && u & 0x0F == u % 16 && u & 0xF0 <= 0xF0 && (u & 0xF0)
            % 16 == 0) by (bit_vector);
        let usuit: u8 = (u & 0xF0) as u8;
        let urank: u8 = (u & 0x0F) as u8;
        let suit: u8 = suit_of_display(usuit);
        let rank: u8 = rank_of_display(urank);
        Card::pack(&CardUnpacked { pile: false, pcount: 0, face_up: false, suit, rank })
    }
}

/// The way back inverts the way out: a suit's display part is one of the
/// four from 0xA0 to 0xD0, and it leads back to the suit.
pub proof fn lemma_suit_uni_inverse(suit: SuitCode)
    ensures
        0xA0 <= suit.to_uni() <= 0xD0,
        suit.to_uni() % 16 == 0,
        suit_from_uni(suit.to_uni()) == suit,
        suit_at(suit.index()) == suit,
{
}

/// The rank's display part leads back to the rank.
pub proof fn lemma_rank_uni_inverse(rank: RankCode)
    ensures
        1 <= rank.unicode() <= 14,
        rank_from_uni(rank.unicode()) == Some(rank),
        rank_at(rank.index()) == rank,
{
}

/// Round trip through the display codepoint: for every ordinary card the
/// display codepoint is a scalar value and the display codepoint of a card,
/// and the card that it stands for has the same suit and the same rank,
/// lies face down and is no pile marker.
pub proof fn law_display_round_trip(card: Card)
    requires
        card.well_formed(),
    ensures
        0 <= card.display_codepoint() <= u32::MAX,
        is_scalar_value(card.display_codepoint() as u32),
        is_card_codepoint(card.display_codepoint()),
        card_from_display(card.display_codepoint()).suit_bits() == card.suit_bits(),
        card_from_display(card.display_codepoint()).rank_bits() == card.rank_bits(),
        !card_from_display(card.display_codepoint()).is_face_up(),
        !card_from_display(card.display_codepoint()).is_pile(),
        card_from_display(card.display_codepoint()).well_formed(),
{
    let suit: SuitCode = suit_at(card.suit_bits() as int);
    let rank: RankCode = rank_at(card.rank_bits() as int);
    lemma_suit_uni_inverse(suit);
    lemma_rank_uni_inverse(rank);
    let u: int = card.display_codepoint();
    assert(u % 16 == rank.unicode());
    assert(u % 256 - u % 16 == suit.to_uni());
    assert(suit.index() == card.suit_bits());
    assert(rank.index() == card.rank_bits());
}

/// The bytes of a sequence of cards, card by card.
pub open spec fn card_codes(cards: Seq<Card>) -> Seq<u8> {
    Seq::new(cards.len(), |i: int| cards[i].code)
}

/// The cards that a sequence of bytes holds, byte by byte.
pub open spec fn cards_of_codes(bytes: Seq<u8>) -> Seq<Card> {
    Seq::new(bytes.len(), |i: int| Card { code: bytes[i] })
}

impl Default for CardVec {
    fn default() -> (cv: CardVec)
        ensures
            cv.cards@.len() == 0,
    {
        CardVec { cards: Vec::new() }
    }
}

impl CardVec {
    /// The bytes of the cards, in order.
    pub fn to_vec_u8(self) -> (bytes: Vec<u8>)
        ensures
            bytes@ == card_codes(self.cards@),
    {
        let n: usize = self.cards.len();
        let mut bytes: Vec<u8> = Vec::with_capacity(n);
        let mut i: usize = 0;
        while i < n
            invariant
                n == self.cards@.len(),
                i <= n,
                bytes@.len() == i,
                forall|j: int| 0 <= j < i ==> bytes@[j] == (#[trigger] self.cards@[j]).code,
            decreases n - i,
        {
            bytes.push(self.cards[i].code);
            i += 1;
        }
        assert(bytes@ =~= card_codes(self.cards@));
        bytes
    }

    /// The cards that the bytes hold, in order. Every byte is taken as it
    /// is, whether or not it is an ordinary card.
    pub fn from_vec_u8(vec: Vec<u8>) -> (cv: CardVec)
        ensures
            cv.cards@ == cards_of_codes(vec@),
    {
        let n: usize = vec.len();
        let mut cards: Vec<Card> = Vec::with_capacity(n);
        let mut i: usize = 0;
        while i < n
            invariant
                n == vec@.len(),
                i <= n,
                cards@.len() == i,
                forall|j: int| 0 <= j < i ==> (#[trigger] cards@[j]).code == vec@[j],
            decreases n - i,
        {
            cards.push(Card { code: vec[i] });
            i += 1;
        }
        assert(cards@ =~= cards_of_codes(vec@));
        CardVec { cards }
    }
}

/// Bulk conversion is the identity: the bytes of the cards that a sequence
/// of bytes holds are that sequence, whatever its length, and the cards
/// held by the bytes of a sequence of cards are those cards.
pub proof fn law_bulk_conversion_identity(bytes: Seq<u8>, cards: Seq<Card>)
    ensures
        card_codes(cards_of_codes(bytes)) == bytes,
        cards_of_codes(card_codes(cards)) == cards,
        cards_of_codes(bytes).len() == bytes.len(),
        card_codes(cards).len() == cards.len(),
{
    assert(card_codes(cards_of_codes(bytes)) =~= bytes);
    assert(cards_of_codes(card_codes(cards)) =~= cards);
}

} // verus!
