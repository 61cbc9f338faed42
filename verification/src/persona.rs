//! Writing styles a correction can be made in.

use vstd::prelude::*;
use crate::text::eq_str;

verus! {

broadcast use vstd::string::group_string_axioms;

/// A writing style: its id, its name and the instruction the model receives.
#[derive(Debug)]
pub struct Persona {
    pub id: String,
    pub name: String,
    pub instruction: String,
    pub builtin: bool,
}

impl Clone for Persona {
    fn clone(&self) -> (r: Self)
        ensures
            r == *self,
    {
        Persona {
            id: self.id.clone(),
            name: self.name.clone(),
            instruction: self.instruction.clone(),
            builtin: self.builtin,
        }
    }
}

/// The id of the persona used when none is chosen.
pub const DEFAULT_PERSONA_ID: &'static str = "standard";

pub const STANDARD_INSTRUCTION: &'static str = "Correct grammar, spelling and punctuation only. Preserve the author's voice, \
     register, vocabulary and sentence structure exactly. Do not rephrase, shorten, \
     expand or reorder anything that is already correct.";

pub const FRIENDLY_INSTRUCTION: &'static str = "Correct the text and make it read as warm and conversational. Prefer plain, \
     approachable wording over formal constructions. Keep every fact, request and \
     commitment exactly as the author stated it.";

pub const PROFESSIONAL_INSTRUCTION: &'static str = "Correct the text and raise it to a polished business register. Remove slang, \
     filler and casual contractions. Keep it direct rather than ornate, and do not \
     introduce claims, hedges or pleasantries the author did not make.";

pub const CONCISE_INSTRUCTION: &'static str = "Correct the text and tighten it. Remove redundancy, filler and throat-clearing \
     so it says the same thing in fewer words. Never drop a fact, condition, number \
     or qualifier in the process.";

pub const CREATIVE_INSTRUCTION: &'static str = "Correct the text and make it more vivid and engaging: stronger verbs, more \
     concrete imagery, better rhythm. Stay truthful to the author's intent and do not \
     invent details.";

/// The built-in personas, in the order they are offered: id, name, instruction.
pub open spec fn builtin_persona_table() -> Seq<(Seq<char>, Seq<char>, Seq<char>)> {
    seq![
        (DEFAULT_PERSONA_ID@, "Standard"@, STANDARD_INSTRUCTION@),
        ("friendly"@, "Friendly"@, FRIENDLY_INSTRUCTION@),
        ("professional"@, "Professional"@, PROFESSIONAL_INSTRUCTION@),
        ("concise"@, "Concise"@, CONCISE_INSTRUCTION@),
        ("creative"@, "Creative"@, CREATIVE_INSTRUCTION@),
    ]
}

/// `p` is the built-in persona described by `entry`.
pub open spec fn is_builtin_persona(p: Persona, entry: (Seq<char>, Seq<char>, Seq<char>)) -> bool {
    p.id@ == entry.0 && p.name@ == entry.1 && p.instruction@ == entry.2 && p.builtin
}

/// Index of the first built-in persona with this id, if any.
pub open spec fn builtin_persona_index(id: Seq<char>) -> Option<int> {
    if exists|i: int| 0 <= i < builtin_persona_table().len() && #[trigger] builtin_persona_table()[i].0 == id {
        Some(choose|i: int| 0 <= i < builtin_persona_table().len() && #[trigger] builtin_persona_table()[i].0 == id
            && forall|j: int| 0 <= j < i ==> builtin_persona_table()[j].0 != id)
    } else {
        None
    }
}

/// A persona as id, name, instruction and built-in flag.
pub type PersonaView = (Seq<char>, Seq<char>, Seq<char>, bool);

pub open spec fn persona_view(p: Persona) -> PersonaView {
    (p.id@, p.name@, p.instruction@, p.builtin)
}

pub open spec fn personas_view(v: Seq<Persona>) -> Seq<PersonaView> {
    v.map_values(|p: Persona| persona_view(p))
}

/// The built-in personas, in the order they are offered.
pub open spec fn builtin_personas_view() -> Seq<PersonaView> {
    builtin_persona_table().map_values(|e: (Seq<char>, Seq<char>, Seq<char>)| (e.0, e.1, e.2, true))
}

/// The ids of the built-in personas.
pub open spec fn builtin_persona_ids() -> Seq<Seq<char>> {
    builtin_persona_table().map_values(|e: (Seq<char>, Seq<char>, Seq<char>)| e.0)
}

impl Persona {
    fn builtin(id: &str, name: &str, instruction: &str) -> (r: Self)
        ensures
            r.id@ == id@,
            r.name@ == name@,
            r.instruction@ == instruction@,
            r.builtin,
    {
        Persona {
            id: id.to_owned(),
            name: name.to_owned(),
            instruction: instruction.to_owned(),
            builtin: true,
        }
    }
}

/// Every built-in persona, the default first.
pub fn builtin_personas() -> (r: Vec<Persona>)
    ensures
        r@.len() == builtin_persona_table().len(),
        forall|i: int| 0 <= i < r@.len() ==> is_builtin_persona(#[trigger] r@[i], builtin_persona_table()[i]),
        personas_view(r@) == builtin_personas_view(),
{
    let r = vec![
        Persona::builtin(DEFAULT_PERSONA_ID, "Standard", STANDARD_INSTRUCTION),
        Persona::builtin("friendly", "Friendly", FRIENDLY_INSTRUCTION),
        Persona::builtin("professional", "Professional", PROFESSIONAL_INSTRUCTION),
        Persona::builtin("concise", "Concise", CONCISE_INSTRUCTION),
        Persona::builtin("creative", "Creative", CREATIVE_INSTRUCTION),
    ];
    assert(personas_view(r@) =~= builtin_personas_view());
    r
}

/// The first built-in persona with this id, if there is one.
pub fn builtin_persona(id: &str) -> (r: Option<Persona>)
    ensures
        match builtin_persona_index(id@) {
            Some(i) => r is Some && is_builtin_persona(r->0, builtin_persona_table()[i]),
            None => r is None,
        },
{
    let all = builtin_personas();
    let mut i: usize = 0;
    while i < all.len()
        invariant
            i <= all@.len(),
            all@.len() == builtin_persona_table().len(),
            forall|k: int| 0 <= k < all@.len() ==> is_builtin_persona(#[trigger] all@[k], builtin_persona_table()[k]),
            forall|j: int| 0 <= j < i ==> builtin_persona_table()[j].0 != id@,
        decreases all@.len() - i,
    {
        if eq_str(all[i].id.as_str(), id) {
            assert(is_builtin_persona(all@[i as int], builtin_persona_table()[i as int]));
            let ghost k = i as int;
            assert(builtin_persona_table()[k].0 == id@);
            proof {
                let c = builtin_persona_index(id@)->0;
                assert(builtin_persona_index(id@) is Some);
                if c < k {
                    assert(builtin_persona_table()[c].0 == id@);
                } else if c > k {
                    assert(builtin_persona_table()[k].0 != id@);
                }
            }
            return Some(all[i].clone());
        }
        i = i + 1;
    }
    None
}

/// The default persona is built in, every built-in persona is marked built-in,
/// and no two share an id.
pub proof fn lemma_builtin_ids_are_unique()
    ensures
        builtin_persona_index(DEFAULT_PERSONA_ID@) == Some(0int),
        forall|i: int| 0 <= i < builtin_personas_view().len() ==> (#[trigger] builtin_personas_view()[i]).3,
        forall|i: int, j: int|
            0 <= i < j < builtin_persona_table().len() ==> builtin_persona_table()[i].0
                != builtin_persona_table()[j].0,
{
    reveal_strlit("standard");
    reveal_strlit("friendly");
    reveal_strlit("professional");
    reveal_strlit("concise");
    reveal_strlit("creative");
    let t = builtin_persona_table();
    assert forall|i: int, j: int| 0 <= i < j < t.len() implies t[i].0 != t[j].0 by {
        assert(t[i].0[0] != t[j].0[0] || t[i].0[1] != t[j].0[1] || t[i].0.len() != t[j].0.len());
    }
    let c = choose|i: int| 0 <= i < t.len() && #[trigger] t[i].0 == DEFAULT_PERSONA_ID@ && forall|j: int| 0 <= j < i ==> t[j].0 != DEFAULT_PERSONA_ID@;
    assert(t[0].0 == DEFAULT_PERSONA_ID@);
    if c > 0 {
        assert(t[0].0 != DEFAULT_PERSONA_ID@);
    }
}

} // verus!
