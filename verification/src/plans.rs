//! The cache of plans, one for each facility and language.
use crate::plan::{MealPlan, MealPlanView};
use crate::text::{
    lemma_position, lemma_position_is, position, split_once, split_once_text, text_of,
};
use vstd::prelude::*;

verus! {

#[derive(Debug)]
struct Slot {
    key: String,
    plan: MealPlan,
}

/// The plans that are known, each under the key of its facility and
/// language. No key occurs twice, and every key holds a semicolon.
#[derive(Debug)]
pub struct MealPlans {
    mensas: Vec<Slot>,
}

/// The language of a query that names none.
pub open spec fn default_lang() -> Seq<char> {
    "en"@
}

pub open spec fn lang_or_default(lang: Option<Seq<char>>) -> Seq<char> {
    match lang {
        Some(l) => l,
        None => default_lang(),
    }
}

/// The key of a facility and a language: the language, a semicolon, the
/// facility.
pub open spec fn key_of(mensa: Seq<char>, lang: Option<Seq<char>>) -> Seq<char> {
    lang_or_default(lang) + seq![';'] + mensa
}

/// The facility and the language that a key stands for: what follows its
/// first semicolon, and what precedes it.
pub open spec fn pair_of(key: Seq<char>) -> Option<(Seq<char>, Seq<char>)> {
    match split_once(key, ';') {
        Some((lang, mensa)) => Some((mensa, lang)),
        None => None,
    }
}

/// The keys after a plan has been stored under `key`: a new key comes
/// last, a known key keeps its place.
pub open spec fn keys_with(keys: Seq<Seq<char>>, key: Seq<char>) -> Seq<Seq<char>> {
    if keys.contains(key) {
        keys
    } else {
        keys.push(key)
    }
}

/// A key gives back the facility and the language that it was made of,
/// provided that the language holds no semicolon. (It cannot where one
/// does: the key of facility `m` and language `a;b` is that of facility
/// `b;m` and language `a`.)
pub proof fn lemma_key_round_trip(mensa: Seq<char>, lang: Option<Seq<char>>)
    requires
        lang matches Some(l) ==> !l.contains(';'),
    ensures
        pair_of(key_of(mensa, lang)) == Some((mensa, lang_or_default(lang))),
{
    let l = lang_or_default(lang);
    let key = key_of(mensa, lang);
    if lang is None {
        reveal_strlit("en");
    }
    assert forall|j: int| 0 <= j < l.len() implies key[j] != ';' by {
        assert(key[j] == l[j]);
        if lang is Some {
            assert(l.contains(l[j]));
        }
    }
    assert(key[l.len() as int] == ';');
    lemma_position_is(key, ';', l.len() as int);
    assert(key.take(l.len() as int) =~= l);
    assert(key.skip(l.len() as int + 1) =~= mensa);
}

/// The facility and the language that a key stands for have that key
/// again.
pub proof fn lemma_pair_round_trip(key: Seq<char>)
    requires
        pair_of(key) is Some,
    ensures
        key_of(pair_of(key).unwrap().0, Some(pair_of(key).unwrap().1)) == key,
{
    lemma_position(key, ';');
    let i = position(key, ';');
    assert(key.take(i) + seq![';'] + key.skip(i + 1) =~= key);
}

/// Two pairs of a facility and a language have the same key only if they
/// are the same pair, a missing language counting as the default one,
/// provided that neither language holds a semicolon.
pub proof fn lemma_keys_tell_pairs_apart(
    mensa: Seq<char>,
    lang: Option<Seq<char>>,
    other_mensa: Seq<char>,
    other_lang: Option<Seq<char>>,
)
    requires
        lang matches Some(l) ==> !l.contains(';'),
        other_lang matches Some(l) ==> !l.contains(';'),
        key_of(mensa, lang) == key_of(other_mensa, other_lang),
    ensures
        mensa == other_mensa,
        lang_or_default(lang) == lang_or_default(other_lang),
{
    lemma_key_round_trip(mensa, lang);
    lemma_key_round_trip(other_mensa, other_lang);
}

/// Every key holds a semicolon, so it stands for some facility and
/// language.
pub proof fn lemma_key_has_pair(mensa: Seq<char>, lang: Option<Seq<char>>)
    ensures
        pair_of(key_of(mensa, lang)) is Some,
{
    let l = lang_or_default(lang);
    let key = key_of(mensa, lang);
    lemma_position(key, ';');
    assert(key[l.len() as int] == ';');
}

impl MealPlans {
    /// The keys in the order in which they were first stored.
    pub closed spec fn keys(&self) -> Seq<Seq<char>> {
        self.mensas@.map_values(|s: Slot| s.key@)
    }

    #[verifier::type_invariant]
    spec fn inv(self) -> bool {
        &&& self.keys().no_duplicates()
        &&& forall|i: int| 0 <= i < self.keys().len() ==> pair_of(#[trigger] self.keys()[i]) is Some
    }

    /// A cache without plans.
    pub fn new() -> (plans: MealPlans)
        ensures
            plans@ == Map::<Seq<char>, MealPlanView>::empty(),
            plans.keys() == Seq::<Seq<char>>::empty(),
    {
        let plans = MealPlans { mensas: Vec::new() };
        assert(plans.keys() =~= Seq::empty());
        assert(plans@ =~= Map::empty());
        plans
    }

    /// The key under which the plan of a facility and a language is kept.
    pub fn key(mensa: &str, lang: Option<&str>) -> (key: String)
        ensures
            key@ == key_of(mensa@, text_of(lang)),
    {
        let mut key = match lang {
            Some(l) => String::from_str(l),
            None => String::from_str("en"),
        };
        proof {
            reveal_strlit(";");
        }
        key.append(";");
        key.append(mensa);
        assert(key@ =~= key_of(mensa@, text_of(lang)));
        key
    }

    fn find(&self, key: &String) -> (i: usize)
        ensures
            i <= self.keys().len(),
            i < self.keys().len() ==> self.keys()[i as int] == key@,
            i == self.keys().len() ==> !self.keys().contains(key@),
            self.keys().len() == self.mensas@.len(),
    {
        let mut i: usize = 0;
        while i < self.mensas.len()
            invariant
                i <= self.mensas.len(),
                self.keys().len() == self.mensas@.len(),
                forall|j: int| 0 <= j < i ==> self.keys()[j] != key@,
            decreases self.mensas.len() - i,
        {
            if self.mensas[i].key == *key {
                return i;
            }
            i += 1;
        }
        i
    }

    /// The plan of a facility and a language, if one is known.
    pub fn get(&self, mensa: &str, lang: Option<&str>) -> (r: Option<&MealPlan>)
        ensures
            match r {
                Some(plan) => self@.contains_key(key_of(mensa@, text_of(lang))) && plan@
                    == self@[key_of(mensa@, text_of(lang))],
                None => !self@.contains_key(key_of(mensa@, text_of(lang))),
            },
    {
        proof {
            use_type_invariant(self);
        }
        let key = MealPlans::key(mensa, lang);
        let i = self.find(&key);
        if i < self.mensas.len() {
            assert(self.keys().index_of(key@) == i);
            Some(&self.mensas[i].plan)
        } else {
            None
        }
    }

    /// Stores a plan for a facility and a language, in place of the one
    /// that was known before, which is handed back.
    pub fn insert(&mut self, mensa: &str, lang: Option<&str>, plan: MealPlan) -> (r: Option<
        MealPlan,
    >)
        ensures
            final(self)@ == old(self)@.insert(key_of(mensa@, text_of(lang)), plan@),
            final(self).keys() == keys_with(old(self).keys(), key_of(mensa@, text_of(lang))),
            match r {
                Some(prior) => old(self)@.contains_key(key_of(mensa@, text_of(lang))) && prior@
                    == old(self)@[key_of(mensa@, text_of(lang))],
                None => !old(self)@.contains_key(key_of(mensa@, text_of(lang))),
            },
    {
        proof {
            use_type_invariant(&*self);
            lemma_key_has_pair(mensa@, text_of(lang));
        }
        let key = MealPlans::key(mensa, lang);
        let i = self.find(&key);
        let ghost keys = self.keys();
        let ghost before = self@;
        let ghost stored = plan@;
        let mut mensas: Vec<Slot> = Vec::new();
        std::mem::swap(&mut mensas, &mut self.mensas);
        let ghost slots = mensas@;
        let r = if i < mensas.len() {
            let mut plan = plan;
            assert(keys.index_of(key@) == i);
            std::mem::swap(&mut mensas[i].plan, &mut plan);
            assert(mensas@.map_values(|s: Slot| s.key@) =~= keys);
            Some(plan)
        } else {
            mensas.push(Slot { key, plan });
            assert(mensas@.map_values(|s: Slot| s.key@) =~= keys.push(key@));
            None
        };
        self.mensas = mensas;
        proof {
            let after = self@;
            let k = key_of(mensa@, text_of(lang));
            assert forall|other: Seq<char>| after.contains_key(other) <==> before.insert(
                k,
                stored,
            ).contains_key(other) by {
                if keys.contains(other) {
                    let j = keys.index_of(other);
                    assert(self.keys()[j] == other);
                }
                if self.keys().contains(other) && other != k {
                    let j = self.keys().index_of(other);
                    assert(keys[j] == other);
                }
                if other == k {
                    assert(self.keys()[i as int] == k);
                }
            }
            assert forall|other: Seq<char>| after.contains_key(other) implies after[other]
                == before.insert(k, stored)[other] by {
                let j = self.keys().index_of(other);
                if other == k {
                    assert(self.keys()[i as int] == k);
                    assert(j == i);
                } else {
                    assert(keys[j] == other);
                    assert(keys.index_of(other) == j);
                }
            }
            assert(after =~= before.insert(k, stored));
        }
        r
    }

    /// The facilities and languages whose plans are known, each pair read
    /// back from its key.
    pub fn mensas(&self) -> (pairs: Vec<(String, String)>)
        ensures
            pairs@.len() == self.keys().len(),
            forall|i: int|
                0 <= i < pairs@.len() ==> pair_of(self.keys()[i]) == Some(
                    ((#[trigger] pairs@[i]).0@, pairs@[i].1@),
                ),
            self.keys().no_duplicates(),
            self.keys().to_set() == self@.dom(),
            self.keys().len() == self@.dom().len(),
    {
        proof {
            use_type_invariant(self);
            self.keys().unique_seq_to_set();
            assert(self.keys().to_set() =~= self@.dom());
        }
        let mut pairs: Vec<(String, String)> = Vec::new();
        let mut i: usize = 0;
        while i < self.mensas.len()
            invariant
                i <= self.mensas.len(),
                self.keys().len() == self.mensas@.len(),
                forall|j: int| 0 <= j < self.keys().len() ==> pair_of(#[trigger] self.keys()[j]) is Some,
                pairs@.len() == i,
                forall|j: int|
                    0 <= j < i ==> pair_of(self.keys()[j]) == Some(
                        ((#[trigger] pairs@[j]).0@, pairs@[j].1@),
                    ),
            decreases self.mensas.len() - i,
        {
            assert(pair_of(self.keys()[i as int]) is Some);
            assert(self.keys()[i as int] == self.mensas@[i as int].key@);
            if let Some((lang, mensa)) = split_once_text(self.mensas[i].key.as_str(), ';') {
                pairs.push((mensa.to_owned(), lang.to_owned()));
            }
            i += 1;
        }
        pairs
    }
}

impl Default for MealPlans {
    fn default() -> (plans: MealPlans)
        ensures
            plans@ == Map::<Seq<char>, MealPlanView>::empty(),
    {
        MealPlans::new()
    }
}

impl View for MealPlans {
    type V = Map<Seq<char>, MealPlanView>;

    closed spec fn view(&self) -> Map<Seq<char>, MealPlanView> {
        Map::new(
            |k: Seq<char>| self.keys().contains(k),
            |k: Seq<char>| self.mensas@[self.keys().index_of(k)].plan@,
        )
    }
}

} // verus!
