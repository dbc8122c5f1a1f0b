//! Prices in euro and cent, and their strict reading from text.
use crate::text::{
    chars_of, decimal, digit_char, digit_text, digit_value, is_digit, lemma_decimal,
    lemma_position_is, parse_unsigned, push_decimal, split_once, split_once_at, unsigned_of,
};
use vstd::prelude::*;

verus! {

/// An exact amount of money. There are always fewer than 100 cents.
#[derive(Debug, Clone, Copy, PartialEq, Eq, Structural)]
pub struct Price {
    eur: u32,
    cent: u8,
}

/// An amount as two numbers.
pub struct PriceView {
    pub eur: nat,
    pub cent: nat,
}

/// What a meal costs each kind of guest.
#[derive(Debug, Clone, Copy, PartialEq, Eq, Structural)]
pub struct MealPrice {
    pub students: Price,
    pub servants: Price,
    pub guests: Price,
}

/// What a meal costs, as numbers.
pub struct MealPriceView {
    pub students: PriceView,
    pub servants: PriceView,
    pub guests: PriceView,
}

/// The cents that `s` denotes: exactly two decimal digits.
pub open spec fn cents_of(s: Seq<char>) -> Option<nat> {
    if s.len() == 2 && is_digit(s[0]) && is_digit(s[1]) {
        Some(digit_value(s[0]) * 10 + digit_value(s[1]))
    } else {
        None
    }
}

/// The price that `s` denotes: euros, a comma, cents. The euros are an
/// unsigned decimal number that fits 32 bits, the cents exactly two digits;
/// the comma that counts is the first.
pub open spec fn price_of(s: Seq<char>) -> Option<PriceView> {
    match split_once(s, ',') {
        Some((eur, cent)) => match (unsigned_of(eur), cents_of(cent)) {
            (Some(e), Some(c)) => Some(PriceView { eur: e as nat, cent: c }),
            _ => None,
        },
        None => None,
    }
}

/// The three prices of a meal: all three texts must denote a price.
pub open spec fn meal_price_of(
    students: Seq<char>,
    servants: Seq<char>,
    guests: Seq<char>,
) -> Option<MealPriceView> {
    match (price_of(students), price_of(servants), price_of(guests)) {
        (Some(students), Some(servants), Some(guests)) => Some(
            MealPriceView { students, servants, guests },
        ),
        _ => None,
    }
}

/// A price as text: the euros in decimal digits, a comma, the cents in
/// two digits.
pub open spec fn price_text(p: PriceView) -> Seq<char> {
    decimal(p.eur) + seq![','] + seq![digit_char(p.cent / 10), digit_char(p.cent % 10)]
}

/// A price that is written as text reads back as the same price.
pub proof fn lemma_price_text_round_trip(p: PriceView)
    requires
        p.eur <= u32::MAX,
        p.cent < 100,
    ensures
        price_of(price_text(p)) == Some(p),
{
    let euros = decimal(p.eur);
    let text = price_text(p);
    lemma_decimal(p.eur);
    assert forall|j: int| 0 <= j < euros.len() implies text[j] != ',' by {
        assert(text[j] == euros[j]);
        assert(is_digit(euros[j]));
    }
    assert(text[euros.len() as int] == ',');
    lemma_position_is(text, ',', euros.len() as int);
    assert(text.take(euros.len() as int) =~= euros);
    let cents = text.skip(euros.len() as int + 1);
    assert(cents =~= seq![digit_char(p.cent / 10), digit_char(p.cent % 10)]);
    assert(cents_of(cents) == Some(p.cent));
}

impl View for Price {
    type V = PriceView;

    closed spec fn view(&self) -> PriceView {
        PriceView { eur: self.eur as nat, cent: self.cent as nat }
    }
}

impl View for MealPrice {
    type V = MealPriceView;

    open spec fn view(&self) -> MealPriceView {
        MealPriceView {
            students: self.students@,
            servants: self.servants@,
            guests: self.guests@,
        }
    }
}

fn parse_cents(v: &Vec<char>) -> (r: Option<u8>)
    ensures
        match r {
            Some(c) => cents_of(v@) == Some(c as nat) && c < 100,
            None => cents_of(v@) is None,
        },
{
    if v.len() != 2 {
        return None;
    }
    let a = v[0];
    let b = v[1];
    if a < '0' || a > '9' || b < '0' || b > '9' {
        return None;
    }
    let hi: u32 = a as u32 - '0' as u32;
    let lo: u32 = b as u32 - '0' as u32;
    Some((hi * 10 + lo) as u8)
}

impl Price {
    #[verifier::type_invariant]
    spec fn inv(self) -> bool {
        self.cent < 100
    }

    /// An amount from its parts, where the cents are fewer than 100.
    pub fn new(eur: u32, cent: u8) -> (r: Option<Price>)
        ensures
            match r {
                Some(p) => cent < 100 && p@ == (PriceView { eur: eur as nat, cent: cent as nat }),
                None => cent >= 100,
            },
    {
        if cent < 100 {
            Some(Price { eur, cent })
        } else {
            None
        }
    }

    /// Reads a price such as `3,50`.
    pub fn parse(s: &str) -> (r: Option<Price>)
        ensures
            match r {
                Some(p) => price_of(s@) == Some(p@),
                None => price_of(s@) is None,
            },
    {
        let chars = chars_of(s);
        match split_once_at(&chars, ',') {
            Some((eur, cent)) => {
                match parse_unsigned(&eur) {
                    Some(e) => match parse_cents(&cent) {
                        Some(c) => Some(Price { eur: e, cent: c }),
                        None => None,
                    },
                    None => None,
                }
            },
            None => None,
        }
    }

    /// Writes the price as text, such as `3,50`.
    pub fn to_text(&self) -> (r: String)
        ensures
            r@ == price_text(self@),
            price_of(r@) == Some(self@),
    {
        proof {
            use_type_invariant(self);
            lemma_price_text_round_trip(self@);
            reveal_strlit(",");
        }
        let mut r = String::new();
        push_decimal(&mut r, self.eur);
        r.append(",");
        r.append(digit_text(self.cent as u32 / 10));
        r.append(digit_text(self.cent as u32 % 10));
        assert(r@ =~= price_text(self@));
        r
    }

    pub fn eur(&self) -> (r: u32)
        ensures
            r == self@.eur,
    {
        self.eur
    }

    pub fn cent(&self) -> (r: u8)
        ensures
            r == self@.cent,
            r < 100,
    {
        proof {
            use_type_invariant(self);
        }
        self.cent
    }
}

impl MealPrice {
    /// Reads the three prices of a meal; one that cannot be read leaves the
    /// meal without any.
    pub fn parse(students: &str, servants: &str, guests: &str) -> (r: Option<MealPrice>)
        ensures
            match r {
                Some(p) => meal_price_of(students@, servants@, guests@) == Some(p@),
                None => meal_price_of(students@, servants@, guests@) is None,
            },
    {
        match Price::parse(students) {
            Some(students) => match Price::parse(servants) {
                Some(servants) => match Price::parse(guests) {
                    Some(guests) => Some(MealPrice { students, servants, guests }),
                    None => None,
                },
                None => None,
            },
            None => None,
        }
    }
}

} // verus!
