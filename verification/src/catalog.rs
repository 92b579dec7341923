//! Catalog of model tiers, poem style categories and seed prompt templates,
//! and index-driven selection from them. Randomness is injected by the caller
//! as an index, so selection itself is deterministic and verified.

use vstd::prelude::*;

verus! {

/// The model tier a generation call runs on.
#[derive(Debug, Clone, Copy, PartialEq, Eq, Structural)]
pub enum AiType {
    Davinci,
    Curie,
    Babbage,
    Ada,
}

impl AiType {
    /// The provider-side model identifier for this tier.
    pub open spec fn model_name_spec(self) -> Seq<char> {
        match self {
            AiType::Davinci => "text-davinci-003"@,
            AiType::Curie => "text-curie-001"@,
            AiType::Babbage => "text-babbage-001"@,
            AiType::Ada => "text-ada-001"@,
        }
    }

    /// Returns the provider-side model identifier for this tier.
    pub fn model_name(&self) -> (r: String)
        ensures
            r@ == self.model_name_spec(),
    {
        match self {
            AiType::Davinci => String::from_str("text-davinci-003"),
            AiType::Curie => String::from_str("text-curie-001"),
            AiType::Babbage => String::from_str("text-babbage-001"),
            AiType::Ada => String::from_str("text-ada-001"),
        }
    }
}

/// A poem style category, a closed set with a fixed display string.
#[derive(Debug, Clone, Copy, PartialEq, Eq, Structural)]
pub enum PoemType {
    Sonnet,
    Villanelle,
    Haiku,
    Ekphrastic,
    Concrete,
    Elegy,
    Epigram,
    Limerick,
    Ballad,
    Epitaph,
    Ode,
    FreeVerse,
}

impl PoemType {
    /// The display string of this style category.
    pub open spec fn display_name_spec(self) -> Seq<char> {
        match self {
            PoemType::Sonnet => "Sonnet"@,
            PoemType::Villanelle => "Villanelle Poem"@,
            PoemType::Haiku => "Haiku"@,
            PoemType::Ekphrastic => "Ekphrastic Poem"@,
            PoemType::Concrete => "Concrete Poem"@,
            PoemType::Elegy => "Elegy"@,
            PoemType::Epigram => "Epigram"@,
            PoemType::Limerick => "Limerick"@,
            PoemType::Ballad => "Ballad"@,
            PoemType::Epitaph => "Epitaph"@,
            PoemType::Ode => "Ode"@,
            PoemType::FreeVerse => "Free Verse Poem"@,
        }
    }

    /// Returns the display string of this style category.
    pub fn display_name(&self) -> (r: String)
        ensures
            r@ == self.display_name_spec(),
    {
        match self {
            PoemType::Sonnet => String::from_str("Sonnet"),
            PoemType::Villanelle => String::from_str("Villanelle Poem"),
            PoemType::Haiku => String::from_str("Haiku"),
            PoemType::Ekphrastic => String::from_str("Ekphrastic Poem"),
            PoemType::Concrete => String::from_str("Concrete Poem"),
            PoemType::Elegy => String::from_str("Elegy"),
            PoemType::Epigram => String::from_str("Epigram"),
            PoemType::Limerick => String::from_str("Limerick"),
            PoemType::Ballad => String::from_str("Ballad"),
            PoemType::Epitaph => String::from_str("Epitaph"),
            PoemType::Ode => String::from_str("Ode"),
            PoemType::FreeVerse => String::from_str("Free Verse Poem"),
        }
    }
}

/// The style categories a run may draw from.
pub open spec fn poem_types_spec() -> Seq<PoemType> {
    seq![
        PoemType::Sonnet,
        PoemType::Villanelle,
        PoemType::Ekphrastic,
        PoemType::Concrete,
        PoemType::Elegy,
        PoemType::Epigram,
        PoemType::Ballad,
        PoemType::Epitaph,
        PoemType::Ode,
        PoemType::FreeVerse,
    ]
}

/// Returns the style categories a run may draw from.
pub fn poem_types() -> (r: Vec<PoemType>)
    ensures
        r@ == poem_types_spec(),
{
    let mut v: Vec<PoemType> = Vec::new();
    v.push(PoemType::Sonnet);
    v.push(PoemType::Villanelle);
    v.push(PoemType::Ekphrastic);
    v.push(PoemType::Concrete);
    v.push(PoemType::Elegy);
    v.push(PoemType::Epigram);
    v.push(PoemType::Ballad);
    v.push(PoemType::Epitaph);
    v.push(PoemType::Ode);
    v.push(PoemType::FreeVerse);
    proof {
        assert(v@ =~= poem_types_spec());
    }
    v
}

/// The seed prompt templates a run may draw from.
pub open spec fn poem_prompts_spec() -> Seq<Seq<char>> {
    seq![
        "Write a prompt for a poem about robots that compete with other robots"@,
        "Create poem prompt about the journey from nothing to a competitive robot designed to compete in team-based games"@,
        "Write poem prompt for poem about students engineering a robot for team-based competitive game"@,
        "Write a poem prompt about young adults learning engineering through adversity by competing in team-based competitive robot games"@,
        "Write a poem prompt pertaining to the themes self-education, science, robotics and friendly competition"@,
    ]
}

/// Returns the seed prompt templates a run may draw from.
pub fn poem_prompts() -> (r: Vec<String>)
    ensures
        r@.len() == poem_prompts_spec().len(),
        forall|i: int| 0 <= i < r@.len() ==> r@[i]@ == poem_prompts_spec()[i],
{
    let mut v: Vec<String> = Vec::new();
    v.push(String::from_str(
        "Write a prompt for a poem about robots that compete with other robots",
    ));
    v.push(String::from_str(
        "Create poem prompt about the journey from nothing to a competitive robot designed to compete in team-based games",
    ));
    v.push(String::from_str(
        "Write poem prompt for poem about students engineering a robot for team-based competitive game",
    ));
    v.push(String::from_str(
        "Write a poem prompt about young adults learning engineering through adversity by competing in team-based competitive robot games",
    ));
    v.push(String::from_str(
        "Write a poem prompt pertaining to the themes self-education, science, robotics and friendly competition",
    ));
    v
}

/// Picks the style at `idx` modulo the catalog length, so that any
/// externally drawn random number selects a valid entry.
pub fn pick_poem_type(types: &Vec<PoemType>, idx: usize) -> (r: PoemType)
    requires
        types@.len() > 0,
    ensures
        r == types@[idx as int % types@.len() as int],
{
    let n = types.len();
    let i = idx % n;
    proof {
        assert(i < n) by (nonlinear_arith)
            requires
                n > 0,
                i == idx % n,
        ;
    }
    types[i]
}

/// Picks the seed prompt at `idx` modulo the catalog length.
pub fn pick_poem_prompt(prompts: &Vec<String>, idx: usize) -> (r: String)
    requires
        prompts@.len() > 0,
    ensures
        r@ == prompts@[idx as int % prompts@.len() as int]@,
{
    let n = prompts.len();
    let i = idx % n;
    proof {
        assert(i < n) by (nonlinear_arith)
            requires
                n > 0,
                i == idx % n,
        ;
    }
    prompts[i].clone()
}

} // verus!
