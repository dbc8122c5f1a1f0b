//! What a meal is labelled with: the traffic-light rating, additives,
//! allergens and sustainability attributes, and the reading of the coded
//! label string that upstream sends.
use crate::text::{chars_of, reads_as, split, split_at};
use vstd::prelude::*;

verus! {

#[derive(Debug, Clone, Copy, PartialEq, Eq, Hash, Structural)]
pub enum MealAttribute {
    Vegan,
    Fairtrade,
    ClimateFood,
    Vegetarian,
    SustainableFarming,
    SustainableFishing,
    Frozen,
}

#[derive(Debug, Clone, Copy, PartialEq, Eq, Hash, Structural)]
pub enum MealAllergen {
    Gluten,
    Wheat,
    Rye,
    Barley,
    Oats,
    Spelt,
    Hand,
    Crustaceans,
    Eggs,
    Fish,
    Peanuts,
    Nuts,
    Almonds,
    Hazelnut,
    Wallnut,
    Cashew,
    Pecan,
    Paranus,
    Pistacio,
    Macadamia,
    Cellery,
    Soy,
    Mustard,
    MilkProducts,
    Sesame,
    Sulfides,
    Lupine,
    Molluscs,
    NitriteSalt,
    Yeast,
}

#[derive(Debug, Clone, Copy, PartialEq, Eq, Hash, Structural)]
pub enum MealAddative {
    Pork,
    Alcohol,
    FlavourEnhancer,
    Waxed,
    Preserved,
    Antioxidants,
    Coloring,
    Phosphate,
    Darkened,
    Phenylalaninsource,
    Sweeteners,
    SmallFishParts,
    Caffeine,
    Chitin,
    Sulfur,
    LaxativeEffect,
}

#[derive(Debug, Clone, Copy, PartialEq, Eq, Hash, Structural)]
pub enum Rating {
    Red,
    Yellow,
    Green,
}

/// The three traffic lights of a meal. Only the health light is coded in the
/// label string; the other two stay unset.
#[derive(Debug, Clone, Copy, PartialEq, Eq, Structural)]
pub struct MealEnvRating {
    pub health: Option<Rating>,
    pub co2: Option<Rating>,
    pub h2o: Option<Rating>,
}

/// One code of the label string, read.
#[derive(Debug, Clone, Copy, PartialEq, Eq, Structural)]
pub enum InfoItem {
    Addative(MealAddative),
    Allergen(MealAllergen),
    HealthRating(Rating),
}

/// The labels of one meal. Each of the three collections holds a label at
/// most once.
#[derive(Debug)]
pub struct MealInfo {
    env_rating: MealEnvRating,
    addatives: Vec<MealAddative>,
    allergens: Vec<MealAllergen>,
    attributes: Vec<MealAttribute>,
}

/// A meal's labels as sets.
pub struct MealInfoView {
    pub env_rating: MealEnvRating,
    pub addatives: Set<MealAddative>,
    pub allergens: Set<MealAllergen>,
    pub attributes: Set<MealAttribute>,
}

/// The table of codes. A code that the table does not hold means nothing.
pub open spec fn item_of(code: Seq<char>) -> Option<InfoItem> {
    if code == "0Ampel0"@ {
        Some(InfoItem::HealthRating(Rating::Green))
    } else if code == "0Ampel1"@ {
        Some(InfoItem::HealthRating(Rating::Yellow))
    } else if code == "0Ampel2"@ {
        Some(InfoItem::HealthRating(Rating::Red))
    } else if code == "2"@ {
        Some(InfoItem::Addative(MealAddative::Pork))
    } else if code == "3"@ {
        Some(InfoItem::Addative(MealAddative::Alcohol))
    } else if code == "4"@ {
        Some(InfoItem::Addative(MealAddative::FlavourEnhancer))
    } else if code == "5"@ {
        Some(InfoItem::Addative(MealAddative::Waxed))
    } else if code == "6"@ {
        Some(InfoItem::Addative(MealAddative::Preserved))
    } else if code == "7"@ {
        Some(InfoItem::Addative(MealAddative::Antioxidants))
    } else if code == "8"@ {
        Some(InfoItem::Addative(MealAddative::Coloring))
    } else if code == "9"@ {
        Some(InfoItem::Addative(MealAddative::Phosphate))
    } else if code == "10"@ {
        Some(InfoItem::Addative(MealAddative::Darkened))
    } else if code == "12"@ {
        Some(InfoItem::Addative(MealAddative::Phenylalaninsource))
    } else if code == "13"@ {
        Some(InfoItem::Addative(MealAddative::Sweeteners))
    } else if code == "14"@ {
        Some(InfoItem::Addative(MealAddative::SmallFishParts))
    } else if code == "16"@ {
        Some(InfoItem::Addative(MealAddative::Caffeine))
    } else if code == "17"@ {
        Some(InfoItem::Addative(MealAddative::Chitin))
    } else if code == "19"@ {
        Some(InfoItem::Addative(MealAddative::Sulfur))
    } else if code == "20"@ {
        Some(InfoItem::Addative(MealAddative::LaxativeEffect))
    } else if code == "21"@ {
        Some(InfoItem::Allergen(MealAllergen::Gluten))
    } else if code == "21a"@ {
        Some(InfoItem::Allergen(MealAllergen::Wheat))
    } else if code == "21b"@ {
        Some(InfoItem::Allergen(MealAllergen::Rye))
    } else if code == "21c"@ {
        Some(InfoItem::Allergen(MealAllergen::Barley))
    } else if code == "21d"@ {
        Some(InfoItem::Allergen(MealAllergen::Oats))
    } else if code == "21e"@ {
        Some(InfoItem::Allergen(MealAllergen::Spelt))
    } else if code == "21f"@ {
        Some(InfoItem::Allergen(MealAllergen::Hand))
    } else if code == "22"@ {
        Some(InfoItem::Allergen(MealAllergen::Crustaceans))
    } else if code == "23"@ {
        Some(InfoItem::Allergen(MealAllergen::Eggs))
    } else if code == "24"@ {
        Some(InfoItem::Allergen(MealAllergen::Fish))
    } else if code == "25"@ {
        Some(InfoItem::Allergen(MealAllergen::Peanuts))
    } else if code == "26"@ {
        Some(InfoItem::Allergen(MealAllergen::Nuts))
    } else if code == "26a"@ {
        Some(InfoItem::Allergen(MealAllergen::Almonds))
    } else if code == "26b"@ {
        Some(InfoItem::Allergen(MealAllergen::Hazelnut))
    } else if code == "26c"@ {
        Some(InfoItem::Allergen(MealAllergen::Wallnut))
    } else if code == "26d"@ {
        Some(InfoItem::Allergen(MealAllergen::Cashew))
    } else if code == "26e"@ {
        Some(InfoItem::Allergen(MealAllergen::Pecan))
    } else if code == "26f"@ {
        Some(InfoItem::Allergen(MealAllergen::Paranus))
    } else if code == "26g"@ {
        Some(InfoItem::Allergen(MealAllergen::Pistacio))
    } else if code == "26h"@ {
        Some(InfoItem::Allergen(MealAllergen::Macadamia))
    } else if code == "27"@ {
        Some(InfoItem::Allergen(MealAllergen::Cellery))
    } else if code == "28"@ {
        Some(InfoItem::Allergen(MealAllergen::Soy))
    } else if code == "29"@ {
        Some(InfoItem::Allergen(MealAllergen::Mustard))
    } else if code == "30"@ {
        Some(InfoItem::Allergen(MealAllergen::MilkProducts))
    } else if code == "31"@ {
        Some(InfoItem::Allergen(MealAllergen::Sesame))
    } else if code == "32"@ {
        Some(InfoItem::Allergen(MealAllergen::Sulfides))
    } else if code == "33"@ {
        Some(InfoItem::Allergen(MealAllergen::Lupine))
    } else if code == "34"@ {
        Some(InfoItem::Allergen(MealAllergen::Molluscs))
    } else if code == "35"@ {
        Some(InfoItem::Allergen(MealAllergen::NitriteSalt))
    } else if code == "36"@ {
        Some(InfoItem::Allergen(MealAllergen::Yeast))
    } else {
        None
    }
}

/// Some code among `codes` names the additive `a`.
pub open spec fn names_addative(codes: Seq<Seq<char>>, a: MealAddative) -> bool {
    exists|j: int|
        0 <= j < codes.len() && item_of(#[trigger] codes[j]) == Some(InfoItem::Addative(a))
}

/// Some code among `codes` names the allergen `a`.
pub open spec fn names_allergen(codes: Seq<Seq<char>>, a: MealAllergen) -> bool {
    exists|j: int|
        0 <= j < codes.len() && item_of(#[trigger] codes[j]) == Some(InfoItem::Allergen(a))
}

/// The rating that the last rating code among `codes` gives, if any does.
pub open spec fn last_rating(codes: Seq<Seq<char>>) -> Option<Rating>
    decreases codes.len(),
{
    if codes.len() == 0 {
        None
    } else {
        match item_of(codes.last()) {
            Some(InfoItem::HealthRating(r)) => Some(r),
            _ => last_rating(codes.drop_last()),
        }
    }
}

/// Whether the code `code`, coming after the codes `before`, sets a label
/// that is set already: a rating after a rating, or an additive or an
/// allergen that was named before.
pub open spec fn collides(before: Seq<Seq<char>>, code: Seq<char>) -> bool {
    match item_of(code) {
        Some(InfoItem::HealthRating(_)) => last_rating(before) is Some,
        Some(InfoItem::Addative(a)) => names_addative(before, a),
        Some(InfoItem::Allergen(a)) => names_allergen(before, a),
        None => false,
    }
}

/// Number of codes among `codes` that collide with the codes before them.
pub open spec fn collisions(codes: Seq<Seq<char>>) -> nat
    decreases codes.len(),
{
    if codes.len() == 0 {
        0
    } else {
        collisions(codes.drop_last()) + if collides(codes.drop_last(), codes.last()) {
            1nat
        } else {
            0nat
        }
    }
}

/// The labels that a run of codes sets: each known code adds its label, an
/// unknown code adds nothing, and of several rating codes the last one
/// counts.
pub open spec fn labels_of(codes: Seq<Seq<char>>) -> MealInfoView {
    MealInfoView {
        env_rating: MealEnvRating { health: last_rating(codes), co2: None, h2o: None },
        addatives: Set::new(|a: MealAddative| names_addative(codes, a)),
        allergens: Set::new(|a: MealAllergen| names_allergen(codes, a)),
        attributes: Set::empty(),
    }
}

/// What a label string says: the labels that its codes set, the codes being
/// set apart by commas.
pub open spec fn info_of(desc: Seq<char>) -> MealInfoView {
    labels_of(split(desc, ','))
}

/// Labels with one more label set.
pub open spec fn with_item(info: MealInfoView, item: InfoItem) -> MealInfoView {
    match item {
        InfoItem::Addative(a) => MealInfoView { addatives: info.addatives.insert(a), ..info },
        InfoItem::Allergen(a) => MealInfoView { allergens: info.allergens.insert(a), ..info },
        InfoItem::HealthRating(r) => MealInfoView {
            env_rating: MealEnvRating { health: Some(r), ..info.env_rating },
            ..info
        },
    }
}

/// Whether labels hold what an item would set: the additive or the
/// allergen, or any health rating.
pub open spec fn holds_item(info: MealInfoView, item: InfoItem) -> bool {
    match item {
        InfoItem::Addative(a) => info.addatives.contains(a),
        InfoItem::Allergen(a) => info.allergens.contains(a),
        InfoItem::HealthRating(_) => info.env_rating.health is Some,
    }
}

/// The labels of no code at all.
pub open spec fn no_labels() -> MealInfoView {
    MealInfoView {
        env_rating: MealEnvRating { health: None, co2: None, h2o: None },
        addatives: Set::empty(),
        allergens: Set::empty(),
        attributes: Set::empty(),
    }
}

/// One more code sets its label on top of the labels of the codes before
/// it, and collides exactly where those labels hold it already.
pub proof fn lemma_labels_push(codes: Seq<Seq<char>>, code: Seq<char>)
    ensures
        labels_of(codes.push(code)) == match item_of(code) {
            Some(item) => with_item(labels_of(codes), item),
            None => labels_of(codes),
        },
        collides(codes, code) == match item_of(code) {
            Some(item) => holds_item(labels_of(codes), item),
            None => false,
        },
        collisions(codes.push(code)) == collisions(codes) + if collides(codes, code) {
            1nat
        } else {
            0nat
        },
{
    let upto = codes.push(code);
    let expected = match item_of(code) {
        Some(item) => with_item(labels_of(codes), item),
        None => labels_of(codes),
    };
    assert(upto.drop_last() =~= codes);
    assert(upto.last() == code);
    assert forall|a: MealAddative|
        names_addative(upto, a) <==> names_addative(codes, a) || item_of(code) == Some(
            InfoItem::Addative(a),
        ) by {
        if names_addative(codes, a) {
            let j = choose|j: int|
                0 <= j < codes.len() && item_of(#[trigger] codes[j]) == Some(
                    InfoItem::Addative(a),
                );
            assert(upto[j] == codes[j]);
        }
        if names_addative(upto, a) {
            let j = choose|j: int|
                0 <= j < upto.len() && item_of(#[trigger] upto[j]) == Some(InfoItem::Addative(a));
            if j < codes.len() {
                assert(codes[j] == upto[j]);
            }
        }
        if item_of(code) == Some(InfoItem::Addative(a)) {
            assert(upto[codes.len() as int] == code);
        }
    }
    assert forall|a: MealAllergen|
        names_allergen(upto, a) <==> names_allergen(codes, a) || item_of(code) == Some(
            InfoItem::Allergen(a),
        ) by {
        if names_allergen(codes, a) {
            let j = choose|j: int|
                0 <= j < codes.len() && item_of(#[trigger] codes[j]) == Some(
                    InfoItem::Allergen(a),
                );
            assert(upto[j] == codes[j]);
        }
        if names_allergen(upto, a) {
            let j = choose|j: int|
                0 <= j < upto.len() && item_of(#[trigger] upto[j]) == Some(InfoItem::Allergen(a));
            if j < codes.len() {
                assert(codes[j] == upto[j]);
            }
        }
        if item_of(code) == Some(InfoItem::Allergen(a)) {
            assert(upto[codes.len() as int] == code);
        }
    }
    assert(labels_of(upto).addatives =~= expected.addatives);
    assert(labels_of(upto).allergens =~= expected.allergens);
    assert(labels_of(upto).attributes =~= expected.attributes);
}

impl InfoItem {
    /// Looks a code up in the table.
    pub fn from_id(id: &str) -> (r: Option<InfoItem>)
        ensures
            r == item_of(id@),
    {
        let code = chars_of(id);
        InfoItem::from_code(&code)
    }

    /// Looks a code up in the table.
    pub fn from_code(code: &Vec<char>) -> (r: Option<InfoItem>)
        ensures
            r == item_of(code@),
    {
        if reads_as(code, "0Ampel0") {
            Some(InfoItem::HealthRating(Rating::Green))
        } else if reads_as(code, "0Ampel1") {
            Some(InfoItem::HealthRating(Rating::Yellow))
        } else if reads_as(code, "0Ampel2") {
            Some(InfoItem::HealthRating(Rating::Red))
        } else if reads_as(code, "2") {
            Some(InfoItem::Addative(MealAddative::Pork))
        } else if reads_as(code, "3") {
            Some(InfoItem::Addative(MealAddative::Alcohol))
        } else if reads_as(code, "4") {
            Some(InfoItem::Addative(MealAddative::FlavourEnhancer))
        } else if reads_as(code, "5") {
            Some(InfoItem::Addative(MealAddative::Waxed))
        } else if reads_as(code, "6") {
            Some(InfoItem::Addative(MealAddative::Preserved))
        } else if reads_as(code, "7") {
            Some(InfoItem::Addative(MealAddative::Antioxidants))
        } else if reads_as(code, "8") {
            Some(InfoItem::Addative(MealAddative::Coloring))
        } else if reads_as(code, "9") {
            Some(InfoItem::Addative(MealAddative::Phosphate))
        } else if reads_as(code, "10") {
            Some(InfoItem::Addative(MealAddative::Darkened))
        } else if reads_as(code, "12") {
            Some(InfoItem::Addative(MealAddative::Phenylalaninsource))
        } else if reads_as(code, "13") {
            Some(InfoItem::Addative(MealAddative::Sweeteners))
        } else if reads_as(code, "14") {
            Some(InfoItem::Addative(MealAddative::SmallFishParts))
        } else if reads_as(code, "16") {
            Some(InfoItem::Addative(MealAddative::Caffeine))
        } else if reads_as(code, "17") {
            Some(InfoItem::Addative(MealAddative::Chitin))
        } else if reads_as(code, "19") {
            Some(InfoItem::Addative(MealAddative::Sulfur))
        } else if reads_as(code, "20") {
            Some(InfoItem::Addative(MealAddative::LaxativeEffect))
        } else if reads_as(code, "21") {
            Some(InfoItem::Allergen(MealAllergen::Gluten))
        } else if reads_as(code, "21a") {
            Some(InfoItem::Allergen(MealAllergen::Wheat))
        } else if reads_as(code, "21b") {
            Some(InfoItem::Allergen(MealAllergen::Rye))
        } else if reads_as(code, "21c") {
            Some(InfoItem::Allergen(MealAllergen::Barley))
        } else if reads_as(code, "21d") {
            Some(InfoItem::Allergen(MealAllergen::Oats))
        } else if reads_as(code, "21e") {
            Some(InfoItem::Allergen(MealAllergen::Spelt))
        } else if reads_as(code, "21f") {
            Some(InfoItem::Allergen(MealAllergen::Hand))
        } else if reads_as(code, "22") {
            Some(InfoItem::Allergen(MealAllergen::Crustaceans))
        } else if reads_as(code, "23") {
            Some(InfoItem::Allergen(MealAllergen::Eggs))
        } else if reads_as(code, "24") {
            Some(InfoItem::Allergen(MealAllergen::Fish))
        } else if reads_as(code, "25") {
            Some(InfoItem::Allergen(MealAllergen::Peanuts))
        } else if reads_as(code, "26") {
            Some(InfoItem::Allergen(MealAllergen::Nuts))
        } else if reads_as(code, "26a") {
            Some(InfoItem::Allergen(MealAllergen::Almonds))
        } else if reads_as(code, "26b") {
            Some(InfoItem::Allergen(MealAllergen::Hazelnut))
        } else if reads_as(code, "26c") {
            Some(InfoItem::Allergen(MealAllergen::Wallnut))
        } else if reads_as(code, "26d") {
            Some(InfoItem::Allergen(MealAllergen::Cashew))
        } else if reads_as(code, "26e") {
            Some(InfoItem::Allergen(MealAllergen::Pecan))
        } else if reads_as(code, "26f") {
            Some(InfoItem::Allergen(MealAllergen::Paranus))
        } else if reads_as(code, "26g") {
            Some(InfoItem::Allergen(MealAllergen::Pistacio))
        } else if reads_as(code, "26h") {
            Some(InfoItem::Allergen(MealAllergen::Macadamia))
        } else if reads_as(code, "27") {
            Some(InfoItem::Allergen(MealAllergen::Cellery))
        } else if reads_as(code, "28") {
            Some(InfoItem::Allergen(MealAllergen::Soy))
        } else if reads_as(code, "29") {
            Some(InfoItem::Allergen(MealAllergen::Mustard))
        } else if reads_as(code, "30") {
            Some(InfoItem::Allergen(MealAllergen::MilkProducts))
        } else if reads_as(code, "31") {
            Some(InfoItem::Allergen(MealAllergen::Sesame))
        } else if reads_as(code, "32") {
            Some(InfoItem::Allergen(MealAllergen::Sulfides))
        } else if reads_as(code, "33") {
            Some(InfoItem::Allergen(MealAllergen::Lupine))
        } else if reads_as(code, "34") {
            Some(InfoItem::Allergen(MealAllergen::Molluscs))
        } else if reads_as(code, "35") {
            Some(InfoItem::Allergen(MealAllergen::NitriteSalt))
        } else if reads_as(code, "36") {
            Some(InfoItem::Allergen(MealAllergen::Yeast))
        } else {
            None
        }
    }
}

fn holds_addative(v: &Vec<MealAddative>, a: MealAddative) -> (r: bool)
    ensures
        r == v@.contains(a),
{
    let mut i: usize = 0;
    while i < v.len()
        invariant
            i <= v.len(),
            forall|j: int| 0 <= j < i ==> v@[j] != a,
        decreases v.len() - i,
    {
        if v[i] == a {
            return true;
        }
        i += 1;
    }
    false
}

fn holds_allergen(v: &Vec<MealAllergen>, a: MealAllergen) -> (r: bool)
    ensures
        r == v@.contains(a),
{
    let mut i: usize = 0;
    while i < v.len()
        invariant
            i <= v.len(),
            forall|j: int| 0 <= j < i ==> v@[j] != a,
        decreases v.len() - i,
    {
        if v[i] == a {
            return true;
        }
        i += 1;
    }
    false
}

fn holds_attribute(v: &Vec<MealAttribute>, a: MealAttribute) -> (r: bool)
    ensures
        r == v@.contains(a),
{
    let mut i: usize = 0;
    while i < v.len()
        invariant
            i <= v.len(),
            forall|j: int| 0 <= j < i ==> v@[j] != a,
        decreases v.len() - i,
    {
        if v[i] == a {
            return true;
        }
        i += 1;
    }
    false
}

impl View for MealInfo {
    type V = MealInfoView;

    closed spec fn view(&self) -> MealInfoView {
        MealInfoView {
            env_rating: self.env_rating,
            addatives: self.addatives@.to_set(),
            allergens: self.allergens@.to_set(),
            attributes: self.attributes@.to_set(),
        }
    }
}

impl MealInfo {
    #[verifier::type_invariant]
    spec fn inv(self) -> bool {
        &&& self.addatives@.no_duplicates()
        &&& self.allergens@.no_duplicates()
        &&& self.attributes@.no_duplicates()
    }

    /// No label at all.
    pub fn new() -> (info: MealInfo)
        ensures
            info@ == no_labels(),
    {
        let info = MealInfo {
            env_rating: MealEnvRating { health: None, co2: None, h2o: None },
            addatives: Vec::new(),
            allergens: Vec::new(),
            attributes: Vec::new(),
        };
        assert(info@.addatives =~= Set::empty());
        assert(info@.allergens =~= Set::empty());
        assert(info@.attributes =~= Set::empty());
        info
    }

    /// Sets one label. An additive or an allergen joins its set; a health
    /// rating takes the place of the one before. The answer is whether the
    /// label was not held before.
    pub fn insert(&mut self, item: InfoItem) -> (fresh: bool)
        ensures
            final(self)@ == with_item(old(self)@, item),
            fresh == !holds_item(old(self)@, item),
    {
        proof {
            use_type_invariant(&*self);
        }
        match item {
            InfoItem::Addative(a) => {
                let mut addatives: Vec<MealAddative> = Vec::new();
                std::mem::swap(&mut addatives, &mut self.addatives);
                let ghost before = addatives@;
                let fresh = !holds_addative(&addatives, a);
                if fresh {
                    addatives.push(a);
                    assert(addatives@[before.len() as int] == a);
                }
                proof {
                    assert forall|b: MealAddative|
                        addatives@.contains(b) <==> before.contains(b) || b == a by {
                        if before.contains(b) {
                            let i = choose|i: int| 0 <= i < before.len() && before[i] == b;
                            assert(addatives@[i] == b);
                        }
                    }
                    assert(addatives@.to_set() =~= before.to_set().insert(a));
                }
                self.addatives = addatives;
                fresh
            },
            InfoItem::Allergen(a) => {
                let mut allergens: Vec<MealAllergen> = Vec::new();
                std::mem::swap(&mut allergens, &mut self.allergens);
                let ghost before = allergens@;
                let fresh = !holds_allergen(&allergens, a);
                if fresh {
                    allergens.push(a);
                    assert(allergens@[before.len() as int] == a);
                }
                proof {
                    assert forall|b: MealAllergen|
                        allergens@.contains(b) <==> before.contains(b) || b == a by {
                        if before.contains(b) {
                            let i = choose|i: int| 0 <= i < before.len() && before[i] == b;
                            assert(allergens@[i] == b);
                        }
                    }
                    assert(allergens@.to_set() =~= before.to_set().insert(a));
                }
                self.allergens = allergens;
                fresh
            },
            InfoItem::HealthRating(r) => {
                let fresh = self.env_rating.health.is_none();
                self.env_rating = MealEnvRating {
                    health: Some(r),
                    co2: self.env_rating.co2,
                    h2o: self.env_rating.h2o,
                };
                fresh
            },
        }
    }

    /// Adds a sustainability attribute. The answer is whether it was not
    /// held before.
    pub fn insert_attribute(&mut self, a: MealAttribute) -> (fresh: bool)
        ensures
            final(self)@ == (MealInfoView {
                attributes: old(self)@.attributes.insert(a),
                ..old(self)@
            }),
            fresh == !old(self)@.attributes.contains(a),
    {
        proof {
            use_type_invariant(&*self);
        }
        let mut attributes: Vec<MealAttribute> = Vec::new();
        std::mem::swap(&mut attributes, &mut self.attributes);
        let ghost before = attributes@;
        let fresh = !holds_attribute(&attributes, a);
        if fresh {
            attributes.push(a);
            assert(attributes@[before.len() as int] == a);
        }
        proof {
            assert forall|b: MealAttribute|
                attributes@.contains(b) <==> before.contains(b) || b == a by {
                if before.contains(b) {
                    let i = choose|i: int| 0 <= i < before.len() && before[i] == b;
                    assert(attributes@[i] == b);
                }
            }
            assert(attributes@.to_set() =~= before.to_set().insert(a));
        }
        self.attributes = attributes;
        fresh
    }

    /// Sets the three traffic lights.
    pub fn set_env_rating(&mut self, env_rating: MealEnvRating)
        ensures
            final(self)@ == (MealInfoView { env_rating, ..old(self)@ }),
    {
        proof {
            use_type_invariant(&*self);
        }
        self.env_rating = env_rating;
    }

    /// Reads a label string.
    pub fn parse(desc: &str) -> (info: MealInfo)
        ensures
            info@ == info_of(desc@),
    {
        MealInfo::parse_counting(desc).0
    }

    /// Reads a label string, and counts the codes in it that set a label
    /// which an earlier code had set already.
    pub fn parse_counting(desc: &str) -> (r: (MealInfo, usize))
        ensures
            r.0@ == info_of(desc@),
            r.1 == collisions(split(desc@, ',')),
    {
        let chars = chars_of(desc);
        let pieces = split_at(&chars, ',');
        let ghost codes = split(desc@, ',');
        let mut info = MealInfo::new();
        let mut again: usize = 0;
        let mut k: usize = 0;
        assert(codes.take(0) =~= Seq::empty());
        assert(labels_of(Seq::empty()).addatives =~= Set::empty());
        assert(labels_of(Seq::empty()).allergens =~= Set::empty());
        while k < pieces.len()
            invariant
                k <= pieces.len(),
                pieces@.len() == codes.len(),
                forall|j: int| 0 <= j < pieces@.len() ==> (#[trigger] pieces@[j])@ == codes[j],
                info@ == labels_of(codes.take(k as int)),
                again == collisions(codes.take(k as int)),
                again <= k,
            decreases pieces.len() - k,
        {
            proof {
                lemma_labels_push(codes.take(k as int), codes[k as int]);
                assert(codes.take(k + 1) =~= codes.take(k as int).push(codes[k as int]));
            }
            match InfoItem::from_code(&pieces[k]) {
                Some(item) => {
                    if !info.insert(item) {
                        again += 1;
                    }
                },
                None => {},
            }
            k += 1;
        }
        assert(codes.take(k as int) =~= codes);
        (info, again)
    }

    /// The three traffic lights.
    pub fn env_rating(&self) -> (r: MealEnvRating)
        ensures
            r == self@.env_rating,
    {
        self.env_rating
    }

    /// The additives, each once.
    pub fn addatives(&self) -> (r: &Vec<MealAddative>)
        ensures
            r@.to_set() == self@.addatives,
            r@.no_duplicates(),
    {
        proof {
            use_type_invariant(self);
        }
        &self.addatives
    }

    /// The allergens, each once.
    pub fn allergens(&self) -> (r: &Vec<MealAllergen>)
        ensures
            r@.to_set() == self@.allergens,
            r@.no_duplicates(),
    {
        proof {
            use_type_invariant(self);
        }
        &self.allergens
    }

    /// The sustainability attributes, each once.
    pub fn attributes(&self) -> (r: &Vec<MealAttribute>)
        ensures
            r@.to_set() == self@.attributes,
            r@.no_duplicates(),
    {
        proof {
            use_type_invariant(self);
        }
        &self.attributes
    }
}

impl Clone for MealInfo {
    fn clone(&self) -> (r: Self)
        ensures
            r@ == self@,
    {
        proof {
            use_type_invariant(self);
        }
        let addatives = self.addatives.clone();
        let allergens = self.allergens.clone();
        let attributes = self.attributes.clone();
        assert(addatives@ =~= self.addatives@);
        assert(allergens@ =~= self.allergens@);
        assert(attributes@ =~= self.attributes@);
        MealInfo { env_rating: self.env_rating, addatives, allergens, attributes }
    }
}

} // verus!
