//! The character sheet of a player.

use crate::stats::{Carac, Competence};
use std::collections::HashMap;
use vstd::prelude::*;

verus! {

broadcast use vstd::std_specs::hash::group_hash_axioms;

/// A player's character: a name, hit points, traits, skills and belongings.
#[derive(Debug, PartialEq)]
pub struct Player {
    name: String,
    max_hp: u16,
    hp: u16,
    stats: HashMap<u8, u16>,
    abilities: HashMap<u8, u16>,
    items: Vec<String>,
}

/// What a character sheet holds.
pub ghost struct Sheet {
    pub name: Seq<char>,
    pub max_hp: u16,
    pub hp: u16,
    pub stats: Map<Carac, u16>,
    pub abilities: Map<Competence, u16>,
    pub items: Seq<Seq<char>>,
}

/// The key under which a trait is filed: its place in the order of declaration.
pub open spec fn carac_index(it: Carac) -> u8 {
    match it {
        Carac::Force => 0u8,
        Carac::Dexterite => 1u8,
        Carac::Endurance => 2u8,
        Carac::Intelligence => 3u8,
        Carac::Charisme => 4u8,
    }
}

fn carac_key(it: Carac) -> (key: u8)
    ensures
        key == carac_index(it),
{
    match it {
        Carac::Force => 0u8,
        Carac::Dexterite => 1u8,
        Carac::Endurance => 2u8,
        Carac::Intelligence => 3u8,
        Carac::Charisme => 4u8,
    }
}

/// The key under which a skill is filed: its place in the order of declaration.
pub open spec fn competence_index(it: Competence) -> u8 {
    match it {
        Competence::Artisanat => 0u8,
        Competence::CombatDistance => 1u8,
        Competence::CombatRapproche => 2u8,
        Competence::ConnaissanceNature => 3u8,
        Competence::ConnaissanceSecret => 4u8,
        Competence::CourirSauter => 5u8,
        Competence::Discretion => 6u8,
        Competence::Droit => 7u8,
        Competence::Esquiver => 8u8,
        Competence::Intimider => 9u8,
        Competence::LireEcrire => 10u8,
        Competence::MentirConvaincre => 11u8,
        Competence::Perception => 12u8,
        Competence::Piloter => 13u8,
        Competence::Psychologie => 14u8,
        Competence::Reflexes => 15u8,
        Competence::SerrurePieges => 16u8,
        Competence::Soigner => 17u8,
        Competence::Survie => 18u8,
        Competence::Voler => 19u8,
    }
}

fn competence_key(it: Competence) -> (key: u8)
    ensures
        key == competence_index(it),
{
    match it {
        Competence::Artisanat => 0u8,
        Competence::CombatDistance => 1u8,
        Competence::CombatRapproche => 2u8,
        Competence::ConnaissanceNature => 3u8,
        Competence::ConnaissanceSecret => 4u8,
        Competence::CourirSauter => 5u8,
        Competence::Discretion => 6u8,
        Competence::Droit => 7u8,
        Competence::Esquiver => 8u8,
        Competence::Intimider => 9u8,
        Competence::LireEcrire => 10u8,
        Competence::MentirConvaincre => 11u8,
        Competence::Perception => 12u8,
        Competence::Piloter => 13u8,
        Competence::Psychologie => 14u8,
        Competence::Reflexes => 15u8,
        Competence::SerrurePieges => 16u8,
        Competence::Soigner => 17u8,
        Competence::Survie => 18u8,
        Competence::Voler => 19u8,
    }
}

/// The traits of a character, each with its score.
pub open spec fn scores(
    force: u16,
    dexterite: u16,
    endurance: u16,
    intelligence: u16,
    charisme: u16,
) -> Map<Carac, u16> {
    Map::new(
        |carac: Carac| true,
        |carac: Carac|
            match carac {
                Carac::Force => force,
                Carac::Dexterite => dexterite,
                Carac::Endurance => endurance,
                Carac::Intelligence => intelligence,
                Carac::Charisme => charisme,
            },
    )
}

/// The score of a skill: twice the sum of the two traits it rests on.
pub open spec fn ability_score(stats: Map<Carac, u16>, competence: Competence) -> int {
    (stats[competence.associated().0] + stats[competence.associated().1]) * 2
}

/// Every skill with the score that the traits give it.
pub open spec fn derived_abilities(stats: Map<Carac, u16>) -> Map<Competence, u16> {
    Map::new(
        |competence: Competence| true,
        |competence: Competence| ability_score(stats, competence) as u16,
    )
}

impl View for Player {
    type V = Sheet;

    closed spec fn view(&self) -> Sheet {
        Sheet {
            name: self.name@,
            max_hp: self.max_hp,
            hp: self.hp,
            stats: Map::new(
                |carac: Carac| self.stats@.contains_key(carac_index(carac)),
                |carac: Carac| self.stats@[carac_index(carac)],
            ),
            abilities: Map::new(
                |competence: Competence| self.abilities@.contains_key(competence_index(competence)),
                |competence: Competence| self.abilities@[competence_index(competence)],
            ),
            items: Seq::new(self.items@.len(), |i: int| self.items@[i]@),
        }
    }
}

impl Player {
    /// A fresh character: ten hit points, no trait, no skill, no belongings.
    pub fn new(name: String) -> (player: Player)
        ensures
            player@ == (Sheet {
                name: name@,
                max_hp: 10,
                hp: 10,
                stats: Map::empty(),
                abilities: Map::empty(),
                items: Seq::empty(),
            }),
    {
        let player = Player {
            name,
            max_hp: 10,
            hp: 10,
            stats: HashMap::new(),
            abilities: HashMap::new(),
            items: Vec::new(),
        };
        proof {
            assert(player@.stats =~= Map::empty());
            assert(player@.abilities =~= Map::empty());
            assert(player@.items =~= Seq::empty());
        }
        player
    }

    /// Sets the five traits and derives every skill from them.
    pub fn init(
        &mut self,
        force: u16,
        dexterite: u16,
        endurance: u16,
        intelligence: u16,
        charisme: u16,
    )
        requires
            forall|competence: Competence| #[trigger]
                ability_score(
                    scores(force, dexterite, endurance, intelligence, charisme),
                    competence,
                ) <= u16::MAX,
        ensures
            final(self)@ == (Sheet {
                stats: scores(force, dexterite, endurance, intelligence, charisme),
                abilities: derived_abilities(
                    scores(force, dexterite, endurance, intelligence, charisme),
                ),
                ..old(self)@
            }),
    {
        let ghost stats = scores(force, dexterite, endurance, intelligence, charisme);
        self.stats.insert(carac_key(Carac::Force), force);
        self.stats.insert(carac_key(Carac::Dexterite), dexterite);
        self.stats.insert(carac_key(Carac::Endurance), endurance);
        self.stats.insert(carac_key(Carac::Intelligence), intelligence);
        self.stats.insert(carac_key(Carac::Charisme), charisme);
        let ghost filed = self.stats@;
        assert forall|carac: Carac| #[trigger]
            filed.contains_key(carac_index(carac)) && filed[carac_index(carac)]
                == stats[carac] by {}

        let all = Competence::all();
        let mut i: usize = 0;
        while i < all.len()
            invariant
                i <= all.len(),
                all@ == Competence::all_spec(),
                self.stats@ == filed,
                self.name == old(self).name,
                self.max_hp == old(self).max_hp,
                self.hp == old(self).hp,
                self.items == old(self).items,
                forall|carac: Carac| #[trigger]
                    filed.contains_key(carac_index(carac)) && filed[carac_index(carac)]
                        == stats[carac],
                forall|competence: Competence| #[trigger]
                    ability_score(stats, competence) <= u16::MAX,
                forall|key: u8|
                    key < i ==> #[trigger] self.abilities@.contains_key(key)
                        && self.abilities@[key] == ability_score(stats, all@[key as int]),
            decreases all.len() - i,
        {
            let competence = all[i];
            assert(competence_index(competence) == i);
            let (first, second) = competence.associated_carac();
            assert(filed.contains_key(carac_index(first)));
            assert(filed.contains_key(carac_index(second)));
            let a: u16 = *self.stats.get(&carac_key(first)).unwrap();
            let b: u16 = *self.stats.get(&carac_key(second)).unwrap();
            assert(ability_score(stats, competence) <= u16::MAX);
            self.abilities.insert(competence_key(competence), (a + b) * 2);
            i += 1;
        }
        proof {
            assert(self@.stats =~= stats);
            assert forall|competence: Competence|
                self@.abilities.contains_key(competence) && #[trigger] self@.abilities[competence]
                    == derived_abilities(stats)[competence] by {
                let key = competence_index(competence);
                assert(all@[key as int] == competence);
                assert(self.abilities@.contains_key(key));
            }
            assert(self@.abilities =~= derived_abilities(stats));
            assert(self@.items =~= old(self)@.items);
        }
    }

    /// The character's name.
    pub fn name(&self) -> (name: &String)
        ensures
            name@ == self@.name,
    {
        &self.name
    }

    /// The hit points left.
    pub fn hp(&self) -> (hp: u16)
        ensures
            hp == self@.hp,
    {
        self.hp
    }

    /// The most hit points the character can have.
    pub fn max_hp(&self) -> (max_hp: u16)
        ensures
            max_hp == self@.max_hp,
    {
        self.max_hp
    }

    /// What the character carries, in the order in which it was picked up.
    pub fn items(&self) -> (items: &Vec<String>)
        ensures
            items@.len() == self@.items.len(),
            forall|i: int| 0 <= i < items@.len() ==> (#[trigger] items@[i])@ == self@.items[i],
    {
        &self.items
    }

    /// Sets the hit points and their maximum.
    pub fn set_hp(&mut self, hp: u16, max_hp: u16)
        ensures
            final(self)@ == (Sheet { hp, max_hp, ..old(self)@ }),
    {
        self.hp = hp;
        self.max_hp = max_hp;
    }

    /// Sets the score of one trait. The skills stay as they are.
    pub fn set_stat(&mut self, carac: Carac, score: u16)
        ensures
            final(self)@ == (Sheet { stats: old(self)@.stats.insert(carac, score), ..old(self)@ }),
    {
        self.stats.insert(carac_key(carac), score);
        proof {
            assert(self@.stats =~= old(self)@.stats.insert(carac, score));
        }
    }

    /// Sets the score of one skill.
    pub fn set_ability(&mut self, competence: Competence, score: u16)
        ensures
            final(self)@ == (Sheet {
                abilities: old(self)@.abilities.insert(competence, score),
                ..old(self)@
            }),
    {
        self.abilities.insert(competence_key(competence), score);
        proof {
            assert(self@.abilities =~= old(self)@.abilities.insert(competence, score));
        }
    }

    /// Adds one thing to what the character carries.
    pub fn add_item(&mut self, item: String)
        ensures
            final(self)@ == (Sheet { items: old(self)@.items.push(item@), ..old(self)@ }),
    {
        self.items.push(item);
        proof {
            assert(self@.items =~= old(self)@.items.push(item@));
        }
    }

    /// The score of a trait, if it has been set.
    pub fn stat(&self, carac: Carac) -> (score: Option<u16>)
        ensures
            score == if self@.stats.contains_key(carac) {
                Some(self@.stats[carac])
            } else {
                None
            },
    {
        match self.stats.get(&carac_key(carac)) {
            Some(score) => Some(*score),
            None => None,
        }
    }

    /// The score of a skill, if it has been set.
    pub fn ability(&self, competence: Competence) -> (score: Option<u16>)
        ensures
            score == if self@.abilities.contains_key(competence) {
                Some(self@.abilities[competence])
            } else {
                None
            },
    {
        match self.abilities.get(&competence_key(competence)) {
            Some(score) => Some(*score),
            None => None,
        }
    }
}

} // verus!
