//! The names of suits, ranks and cards, in the languages that the game speaks.

use vstd::prelude::*;
use vstd::string::StringExecFns;
use crate::cards::Suit;

verus! {

/// A language in which cards are named.
#[derive(Debug, Clone, Copy, PartialEq, Eq, Structural)]
pub enum Language {
    English,
    Swedish,
}

impl Default for Language {
    fn default() -> (language: Language)
        ensures
            language == Language::English,
    {
        Language::English
    }
}

/// The language in which the game names its cards unless it is told another.
pub fn lang() -> (language: Language)
    ensures
        language == Language::Swedish,
{
    Language::Swedish
}

/// The name of a suit.
pub open spec fn suit_text(language: Language, suit: Suit) -> Seq<char> {
    match language {
        Language::English => match suit {
            Suit::Clubs => "Clubs"@,
            Suit::Diamonds => "Diamonds"@,
            Suit::Hearts => "Hearts"@,
            Suit::Spades => "Spades"@,
        },
        Language::Swedish => match suit {
            Suit::Clubs => "Klöver"@,
            Suit::Diamonds => "Ruter"@,
            Suit::Hearts => "Hjärter"@,
            Suit::Spades => "Spader"@,
        },
    }
}

/// The numeral for a single digit.
pub open spec fn digit_text(digit: nat) -> Seq<char>
    recommends
        digit < 10,
{
    if digit == 0 {
        "0"@
    } else if digit == 1 {
        "1"@
    } else if digit == 2 {
        "2"@
    } else if digit == 3 {
        "3"@
    } else if digit == 4 {
        "4"@
    } else if digit == 5 {
        "5"@
    } else if digit == 6 {
        "6"@
    } else if digit == 7 {
        "7"@
    } else if digit == 8 {
        "8"@
    } else {
        "9"@
    }
}

/// A number written in decimal, without leading zeros.
pub open spec fn decimal_text(n: nat) -> Seq<char>
    decreases n,
{
    if n < 10 {
        digit_text(n)
    } else {
        decimal_text(n / 10) + digit_text(n % 10)
    }
}

/// The name of a rank: jack, queen, king and ace for 11 to 14, and the number
/// itself for every other rank.
pub open spec fn rank_text(language: Language, rank: u8) -> Seq<char> {
    if 11 <= rank <= 14 {
        match language {
            Language::English => if rank == 11 {
                "Jack"@
            } else if rank == 12 {
                "Queen"@
            } else if rank == 13 {
                "King"@
            } else {
                "Ace"@
            },
            Language::Swedish => if rank == 11 {
                "Knekt"@
            } else if rank == 12 {
                "Dam"@
            } else if rank == 13 {
                "Kung"@
            } else {
                "Ess"@
            },
        }
    } else {
        decimal_text(rank as nat)
    }
}

/// The name of a card: rank of suit in English, suit and rank in Swedish.
pub open spec fn card_text(language: Language, suit: Suit, rank: u8) -> Seq<char> {
    match language {
        Language::English => rank_text(language, rank) + " of "@ + suit_text(language, suit),
        Language::Swedish => suit_text(language, suit) + " "@ + rank_text(language, rank),
    }
}

/// The name of a suit in the given language.
pub fn suit_name(language: Language, suit: Suit) -> (name: String)
    ensures
        name@ == suit_text(language, suit),
{
    match language {
        Language::English => match suit {
            Suit::Clubs => "Clubs",
            Suit::Diamonds => "Diamonds",
            Suit::Hearts => "Hearts",
            Suit::Spades => "Spades",
        },
        Language::Swedish => match suit {
            Suit::Clubs => "Klöver",
            Suit::Diamonds => "Ruter",
            Suit::Hearts => "Hjärter",
            Suit::Spades => "Spader",
        },
    }.to_string()
}

fn digit_name(digit: u8) -> (name: &'static str)
    requires
        digit < 10,
    ensures
        name@ == digit_text(digit as nat),
{
    match digit {
        0 => "0",
        1 => "1",
        2 => "2",
        3 => "3",
        4 => "4",
        5 => "5",
        6 => "6",
        7 => "7",
        8 => "8",
        _ => "9",
    }
}

/// Writes a number in decimal.
pub fn decimal(n: u8) -> (text: String)
    ensures
        text@ == decimal_text(n as nat),
{
    let mut text = String::new();
    if n >= 100 {
        text.append(digit_name(n / 100));
    }
    if n >= 10 {
        text.append(digit_name((n / 10) % 10));
    }
    text.append(digit_name(n % 10));
    proof {
        reveal_with_fuel(decimal_text, 3);
        assert(text@ =~= decimal_text(n as nat));
    }
    text
}

/// The name of a rank in the given language.
pub fn rank_name(language: Language, rank: u8) -> (name: String)
    ensures
        name@ == rank_text(language, rank),
{
    if 11 <= rank && rank <= 14 {
    } else {
        return decimal(rank);
    }
    match language {
        Language::English => match rank {
            11 => "Jack",
            12 => "Queen",
            13 => "King",
            _ => "Ace",
        },
        Language::Swedish => match rank {
            11 => "Knekt",
            12 => "Dam",
            13 => "Kung",
            _ => "Ess",
        },
    }.to_string()
}

/// The name of a card in the given language.
pub fn card_name(language: Language, suit: Suit, rank: u8) -> (name: String)
    ensures
        name@ == card_text(language, suit, rank),
{
    let rank = rank_name(language, rank);
    let suit = suit_name(language, suit);
    match language {
        Language::English => {
            let mut name = rank;
            name.append(" of ");
            name.append(suit.as_str());
            name
        },
        Language::Swedish => {
            let mut name = suit;
            name.append(" ");
            name.append(rank.as_str());
            name
        },
    }
}

} // verus!
