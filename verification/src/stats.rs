//! The traits of a character and the skills that rest on them.

use vstd::prelude::*;
use vstd::string::StringExecFns;

verus! {

/// Whether two texts hold the same characters.
fn same_text(a: &str, b: &str) -> (same: bool)
    ensures
        same == (a@ == b@),
{
    String::from_str(a) == String::from_str(b)
}

/// A trait of a character.
#[derive(Clone, Copy, Debug, PartialEq, Eq, Hash, Structural)]
pub enum Carac {
    Force,
    Dexterite,
    Endurance,
    Intelligence,
    Charisme,
}

impl Carac {
    /// The short code by which a trait is named in commands.
    pub open spec fn abbr(self) -> Seq<char> {
        match self {
            Carac::Force => "for"@,
            Carac::Dexterite => "dex"@,
            Carac::Endurance => "end"@,
            Carac::Intelligence => "int"@,
            Carac::Charisme => "cha"@,
        }
    }

    /// The trait's name as it is shown.
    pub open spec fn name(self) -> Seq<char> {
        match self {
            Carac::Force => "Force"@,
            Carac::Dexterite => "Dextérité"@,
            Carac::Endurance => "Endurance"@,
            Carac::Intelligence => "Intelligence"@,
            Carac::Charisme => "Chance"@,
        }
    }

    /// The line that shows it: the code in square brackets, then the name.
    pub open spec fn label(self) -> Seq<char> {
        seq!['['] + self.abbr() + seq![']', ' '] + self.name()
    }

    /// Every trait, in the order of declaration.
    pub open spec fn all_spec() -> Seq<Carac> {
        seq![
            Carac::Force,
            Carac::Dexterite,
            Carac::Endurance,
            Carac::Intelligence,
            Carac::Charisme,
        ]
    }

    /// The list of them all.
    pub fn all() -> (v: Vec<Carac>)
        ensures
            v@ == Carac::all_spec(),
    {
        let v = vec![
            Carac::Force,
            Carac::Dexterite,
            Carac::Endurance,
            Carac::Intelligence,
            Carac::Charisme,
        ];
        proof {
            assert(v@ =~= Carac::all_spec());
        }
        v
    }

    /// The short code.
    pub fn get_abbr(&self) -> (s: &'static str)
        ensures
            s@ == self.abbr(),
    {
        match self {
            Carac::Force => "for",
            Carac::Dexterite => "dex",
            Carac::Endurance => "end",
            Carac::Intelligence => "int",
            Carac::Charisme => "cha",
        }
    }

    fn get_name(&self) -> (s: &'static str)
        ensures
            s@ == self.name(),
    {
        match self {
            Carac::Force => "Force",
            Carac::Dexterite => "Dextérité",
            Carac::Endurance => "Endurance",
            Carac::Intelligence => "Intelligence",
            Carac::Charisme => "Chance",
        }
    }

    /// The trait that `abbr` is the code of, if it is the code of one.
    pub fn from_abbr(abbr: &str) -> (r: Option<Carac>)
        ensures
            match r {
                Some(found) => found.abbr() == abbr@,
                None => forall|other: Carac| other.abbr() != abbr@,
            },
    {
        let all = Carac::all();
        let mut i: usize = 0;
        while i < all.len()
            invariant
                i <= all.len(),
                all@ == Carac::all_spec(),
                forall|j: int| 0 <= j < i ==> (#[trigger] all@[j]).abbr() != abbr@,
            decreases all.len() - i,
        {
            if same_text(all[i].get_abbr(), abbr) {
                return Some(all[i]);
            }
            i += 1;
        }
        proof {
            assert forall|other: Carac| other.abbr() != abbr@ by {
                Carac::lemma_all_complete(other);
            }
        }
        None
    }

    /// The line that shows it.
    pub fn to_string(&self) -> (s: String)
        ensures
            s@ == self.label(),
    {
        proof {
            reveal_strlit("[");
            reveal_strlit("] ");
        }
        let mut s = String::from_str("[");
        s.append(self.get_abbr());
        s.append("] ");
        s.append(self.get_name());
        proof {
            assert(s@ =~= self.label());
        }
        s
    }

    /// `all_spec` leaves no trait out.
    pub proof fn lemma_all_complete(it: Carac)
        ensures
            exists|j: int| 0 <= j < Carac::all_spec().len() && #[trigger] Carac::all_spec()[j] == it,
    {
        let all = Carac::all_spec();
        match it {
            Carac::Force => assert(all[0] == it),
            Carac::Dexterite => assert(all[1] == it),
            Carac::Endurance => assert(all[2] == it),
            Carac::Intelligence => assert(all[3] == it),
            Carac::Charisme => assert(all[4] == it),
        }
    }

    /// No two traits share a code: the code names the trait.
    pub proof fn lemma_abbr_names_one(a: Carac, b: Carac)
        requires
            a.abbr() == b.abbr(),
        ensures
            a == b,
    {
        reveal_strlit("for");
        reveal_strlit("dex");
        reveal_strlit("end");
        reveal_strlit("int");
        reveal_strlit("cha");
        let s = a.abbr();
        let t = b.abbr();
        assert(s.len() == t.len());
        assert(s[0] == t[0]);
        assert(s[1] == t[1]);
        if s.len() > 2 {
            assert(s[2] == t[2]);
        }
        if s.len() > 3 {
            assert(s[3] == t[3]);
        }
    }
}

/// A skill of a character.
#[derive(Clone, Copy, Debug, PartialEq, Eq, Hash, Structural)]
pub enum Competence {
    Artisanat,
    CombatDistance,
    CombatRapproche,
    ConnaissanceNature,
    ConnaissanceSecret,
    CourirSauter,
    Discretion,
    Droit,
    Esquiver,
    Intimider,
    LireEcrire,
    MentirConvaincre,
    Perception,
    Piloter,
    Psychologie,
    Reflexes,
    SerrurePieges,
    Soigner,
    Survie,
    Voler,
}

impl Competence {
    /// The two traits on which a skill rests.
    pub open spec fn associated(self) -> (Carac, Carac) {
        match self {
            Competence::Artisanat => (Carac::Dexterite, Carac::Intelligence),
            Competence::CombatDistance => (Carac::Dexterite, Carac::Intelligence),
            Competence::CombatRapproche => (Carac::Force, Carac::Dexterite),
            Competence::ConnaissanceNature => (Carac::Dexterite, Carac::Intelligence),
            Competence::ConnaissanceSecret => (Carac::Intelligence, Carac::Charisme),
            Competence::CourirSauter => (Carac::Dexterite, Carac::Endurance),
            Competence::Discretion => (Carac::Dexterite, Carac::Charisme),
            Competence::Droit => (Carac::Intelligence, Carac::Charisme),
            Competence::Esquiver => (Carac::Dexterite, Carac::Intelligence),
            Competence::Intimider => (Carac::Force, Carac::Charisme),
            Competence::LireEcrire => (Carac::Intelligence, Carac::Charisme),
            Competence::MentirConvaincre => (Carac::Intelligence, Carac::Charisme),
            Competence::Perception => (Carac::Intelligence, Carac::Charisme),
            Competence::Piloter => (Carac::Dexterite, Carac::Endurance),
            Competence::Psychologie => (Carac::Endurance, Carac::Intelligence),
            Competence::Reflexes => (Carac::Dexterite, Carac::Intelligence),
            Competence::SerrurePieges => (Carac::Dexterite, Carac::Endurance),
            Competence::Soigner => (Carac::Intelligence, Carac::Charisme),
            Competence::Survie => (Carac::Endurance, Carac::Intelligence),
            Competence::Voler => (Carac::Dexterite, Carac::Intelligence),
        }
    }

    /// The two traits that the skill rests on.
    pub fn associated_carac(&self) -> (r: (Carac, Carac))
        ensures
            r == self.associated(),
    {
        match self {
            Competence::Artisanat => (Carac::Dexterite, Carac::Intelligence),
            Competence::CombatDistance => (Carac::Dexterite, Carac::Intelligence),
            Competence::CombatRapproche => (Carac::Force, Carac::Dexterite),
            Competence::ConnaissanceNature => (Carac::Dexterite, Carac::Intelligence),
            Competence::ConnaissanceSecret => (Carac::Intelligence, Carac::Charisme),
            Competence::CourirSauter => (Carac::Dexterite, Carac::Endurance),
            Competence::Discretion => (Carac::Dexterite, Carac::Charisme),
            Competence::Droit => (Carac::Intelligence, Carac::Charisme),
            Competence::Esquiver => (Carac::Dexterite, Carac::Intelligence),
            Competence::Intimider => (Carac::Force, Carac::Charisme),
            Competence::LireEcrire => (Carac::Intelligence, Carac::Charisme),
            Competence::MentirConvaincre => (Carac::Intelligence, Carac::Charisme),
            Competence::Perception => (Carac::Intelligence, Carac::Charisme),
            Competence::Piloter => (Carac::Dexterite, Carac::Endurance),
            Competence::Psychologie => (Carac::Endurance, Carac::Intelligence),
            Competence::Reflexes => (Carac::Dexterite, Carac::Intelligence),
            Competence::SerrurePieges => (Carac::Dexterite, Carac::Endurance),
            Competence::Soigner => (Carac::Intelligence, Carac::Charisme),
            Competence::Survie => (Carac::Endurance, Carac::Intelligence),
            Competence::Voler => (Carac::Dexterite, Carac::Intelligence),
        }
    }

    /// The short code by which a skill is named in commands.
    pub open spec fn abbr(self) -> Seq<char> {
        match self {
            Competence::Artisanat => "ar"@,
            Competence::CombatDistance => "codi"@,
            Competence::CombatRapproche => "cora"@,
            Competence::ConnaissanceNature => "cona"@,
            Competence::ConnaissanceSecret => "cose"@,
            Competence::CourirSauter => "cosa"@,
            Competence::Discretion => "di"@,
            Competence::Droit => "dr"@,
            Competence::Esquiver => "es"@,
            Competence::Intimider => "in"@,
            Competence::LireEcrire => "liec"@,
            Competence::MentirConvaincre => "meco"@,
            Competence::Perception => "pe"@,
            Competence::Piloter => "pi"@,
            Competence::Psychologie => "ps"@,
            Competence::Reflexes => "re"@,
            Competence::SerrurePieges => "sepi"@,
            Competence::Soigner => "so"@,
            Competence::Survie => "su"@,
            Competence::Voler => "vo"@,
        }
    }

    /// The skill's name as it is shown.
    pub open spec fn name(self) -> Seq<char> {
        match self {
            Competence::Artisanat => "Artisanat"@,
            Competence::CombatDistance => "Combat à distance"@,
            Competence::CombatRapproche => "Combat rapproché"@,
            Competence::ConnaissanceNature => "Connaissance de la nature"@,
            Competence::ConnaissanceSecret => "Connaissance des secrets"@,
            Competence::CourirSauter => "Courir Sauter"@,
            Competence::Discretion => "Discrétion"@,
            Competence::Droit => "Droit"@,
            Competence::Esquiver => "Esquiver"@,
            Competence::Intimider => "Intimider"@,
            Competence::LireEcrire => "Lire Écrire"@,
            Competence::MentirConvaincre => "Mentir Convaincre"@,
            Competence::Perception => "Perception"@,
            Competence::Piloter => "Piloter"@,
            Competence::Psychologie => "Psychologie"@,
            Competence::Reflexes => "Réflexes"@,
            Competence::SerrurePieges => "Serrures et Pièges"@,
            Competence::Soigner => "Soigner"@,
            Competence::Survie => "Survie"@,
            Competence::Voler => "Voler"@,
        }
    }

    /// The line that shows it: the code in square brackets, then the name.
    pub open spec fn label(self) -> Seq<char> {
        seq!['['] + self.abbr() + seq![']', ' '] + self.name()
    }

    /// Every skill, in the order of declaration.
    pub open spec fn all_spec() -> Seq<Competence> {
        seq![
            Competence::Artisanat,
            Competence::CombatDistance,
            Competence::CombatRapproche,
            Competence::ConnaissanceNature,
            Competence::ConnaissanceSecret,
            Competence::CourirSauter,
            Competence::Discretion,
            Competence::Droit,
            Competence::Esquiver,
            Competence::Intimider,
            Competence::LireEcrire,
            Competence::MentirConvaincre,
            Competence::Perception,
            Competence::Piloter,
            Competence::Psychologie,
            Competence::Reflexes,
            Competence::SerrurePieges,
            Competence::Soigner,
            Competence::Survie,
            Competence::Voler,
        ]
    }

    /// The list of them all.
    pub fn all() -> (v: Vec<Competence>)
        ensures
            v@ == Competence::all_spec(),
    {
        let v = vec![
            Competence::Artisanat,
            Competence::CombatDistance,
            Competence::CombatRapproche,
            Competence::ConnaissanceNature,
            Competence::ConnaissanceSecret,
            Competence::CourirSauter,
            Competence::Discretion,
            Competence::Droit,
            Competence::Esquiver,
            Competence::Intimider,
            Competence::LireEcrire,
            Competence::MentirConvaincre,
            Competence::Perception,
            Competence::Piloter,
            Competence::Psychologie,
            Competence::Reflexes,
            Competence::SerrurePieges,
            Competence::Soigner,
            Competence::Survie,
            Competence::Voler,
        ];
        proof {
            assert(v@ =~= Competence::all_spec());
        }
        v
    }

    /// The short code.
    pub fn get_abbr(&self) -> (s: &'static str)
        ensures
            s@ == self.abbr(),
    {
        match self {
            Competence::Artisanat => "ar",
            Competence::CombatDistance => "codi",
            Competence::CombatRapproche => "cora",
            Competence::ConnaissanceNature => "cona",
            Competence::ConnaissanceSecret => "cose",
            Competence::CourirSauter => "cosa",
            Competence::Discretion => "di",
            Competence::Droit => "dr",
            Competence::Esquiver => "es",
            Competence::Intimider => "in",
            Competence::LireEcrire => "liec",
            Competence::MentirConvaincre => "meco",
            Competence::Perception => "pe",
            Competence::Piloter => "pi",
            Competence::Psychologie => "ps",
            Competence::Reflexes => "re",
            Competence::SerrurePieges => "sepi",
            Competence::Soigner => "so",
            Competence::Survie => "su",
            Competence::Voler => "vo",
        }
    }

    fn get_name(&self) -> (s: &'static str)
        ensures
            s@ == self.name(),
    {
        match self {
            Competence::Artisanat => "Artisanat",
            Competence::CombatDistance => "Combat à distance",
            Competence::CombatRapproche => "Combat rapproché",
            Competence::ConnaissanceNature => "Connaissance de la nature",
            Competence::ConnaissanceSecret => "Connaissance des secrets",
            Competence::CourirSauter => "Courir Sauter",
            Competence::Discretion => "Discrétion",
            Competence::Droit => "Droit",
            Competence::Esquiver => "Esquiver",
            Competence::Intimider => "Intimider",
            Competence::LireEcrire => "Lire Écrire",
            Competence::MentirConvaincre => "Mentir Convaincre",
            Competence::Perception => "Perception",
            Competence::Piloter => "Piloter",
            Competence::Psychologie => "Psychologie",
            Competence::Reflexes => "Réflexes",
            Competence::SerrurePieges => "Serrures et Pièges",
            Competence::Soigner => "Soigner",
            Competence::Survie => "Survie",
            Competence::Voler => "Voler",
        }
    }

    /// The skill that `abbr` is the code of, if it is the code of one.
    pub fn from_abbr(abbr: &str) -> (r: Option<Competence>)
        ensures
            match r {
                Some(found) => found.abbr() == abbr@,
                None => forall|other: Competence| other.abbr() != abbr@,
            },
    {
        let all = Competence::all();
        let mut i: usize = 0;
        while i < all.len()
            invariant
                i <= all.len(),
                all@ == Competence::all_spec(),
                forall|j: int| 0 <= j < i ==> (#[trigger] all@[j]).abbr() != abbr@,
            decreases all.len() - i,
        {
            if same_text(all[i].get_abbr(), abbr) {
                return Some(all[i]);
            }
            i += 1;
        }
        proof {
            assert forall|other: Competence| other.abbr() != abbr@ by {
                Competence::lemma_all_complete(other);
            }
        }
        None
    }

    /// The line that shows it.
    pub fn to_string(&self) -> (s: String)
        ensures
            s@ == self.label(),
    {
        proof {
            reveal_strlit("[");
            reveal_strlit("] ");
        }
        let mut s = String::from_str("[");
        s.append(self.get_abbr());
        s.append("] ");
        s.append(self.get_name());
        proof {
            assert(s@ =~= self.label());
        }
        s
    }

    /// `all_spec` leaves no skill out.
    pub proof fn lemma_all_complete(it: Competence)
        ensures
            exists|j: int| 0 <= j < Competence::all_spec().len() && #[trigger] Competence::all_spec()[j] == it,
    {
        let all = Competence::all_spec();
        match it {
            Competence::Artisanat => assert(all[0] == it),
            Competence::CombatDistance => assert(all[1] == it),
            Competence::CombatRapproche => assert(all[2] == it),
            Competence::ConnaissanceNature => assert(all[3] == it),
            Competence::ConnaissanceSecret => assert(all[4] == it),
            Competence::CourirSauter => assert(all[5] == it),
            Competence::Discretion => assert(all[6] == it),
            Competence::Droit => assert(all[7] == it),
            Competence::Esquiver => assert(all[8] == it),
            Competence::Intimider => assert(all[9] == it),
            Competence::LireEcrire => assert(all[10] == it),
            Competence::MentirConvaincre => assert(all[11] == it),
            Competence::Perception => assert(all[12] == it),
            Competence::Piloter => assert(all[13] == it),
            Competence::Psychologie => assert(all[14] == it),
            Competence::Reflexes => assert(all[15] == it),
            Competence::SerrurePieges => assert(all[16] == it),
            Competence::Soigner => assert(all[17] == it),
            Competence::Survie => assert(all[18] == it),
            Competence::Voler => assert(all[19] == it),
        }
    }

    /// No two skills share a code: the code names the skill.
    pub proof fn lemma_abbr_names_one(a: Competence, b: Competence)
        requires
            a.abbr() == b.abbr(),
        ensures
            a == b,
    {
        reveal_strlit("ar");
        reveal_strlit("codi");
        reveal_strlit("cora");
        reveal_strlit("cona");
        reveal_strlit("cose");
        reveal_strlit("cosa");
        reveal_strlit("di");
        reveal_strlit("dr");
        reveal_strlit("es");
        reveal_strlit("in");
        reveal_strlit("liec");
        reveal_strlit("meco");
        reveal_strlit("pe");
        reveal_strlit("pi");
        reveal_strlit("ps");
        reveal_strlit("re");
        reveal_strlit("sepi");
        reveal_strlit("so");
        reveal_strlit("su");
        reveal_strlit("vo");
        let s = a.abbr();
        let t = b.abbr();
        assert(s.len() == t.len());
        assert(s[0] == t[0]);
        assert(s[1] == t[1]);
        if s.len() > 2 {
            assert(s[2] == t[2]);
        }
        if s.len() > 3 {
            assert(s[3] == t[3]);
        }
    }

    /// A skill rests on two different traits.
    pub proof fn lemma_associated_differ(self)
        ensures
            self.associated().0 != self.associated().1,
    {
    }
}

} // verus!
