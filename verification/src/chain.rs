//! The sequential prompt chain: seed expansion, title generation, poem
//! generation. Each stage consumes the previous stage's output; template
//! substitution is deterministic; a failed stage aborts the run, so a
//! finished artifact can only come out of a run in which every stage
//! succeeded.

use vstd::prelude::*;
use crate::catalog::PoemType;
use crate::settings::AiSettings;
use crate::strutil::trim;
use crate::strutil::trim_spec;

verus! {

/// The poem-generation prompt built from a style and an expanded seed.
pub open spec fn poem_prompt_spec(style: PoemType, expanded: Seq<char>) -> Seq<char> {
    "Write a "@ + style.display_name_spec() + " about:\n"@ + expanded
}

/// The title-generation prompt built from a style and an expanded seed.
pub open spec fn title_prompt_spec(style: PoemType, expanded: Seq<char>) -> Seq<char> {
    "Write a title for a "@ + style.display_name_spec() + " about:\n"@ + expanded
}

/// Builds the poem-generation prompt, per [`poem_prompt_spec`].
pub fn poem_prompt(style: PoemType, expanded: &str) -> (r: String)
    ensures
        r@ == poem_prompt_spec(style, expanded@),
{
    let mut s = String::from_str("Write a ");
    let name = style.display_name();
    s.append(name.as_str());
    s.append(" about:\n");
    s.append(expanded);
    s
}

/// Builds the title-generation prompt, per [`title_prompt_spec`].
pub fn title_prompt(style: PoemType, expanded: &str) -> (r: String)
    ensures
        r@ == title_prompt_spec(style, expanded@),
{
    let mut s = String::from_str("Write a title for a ");
    let name = style.display_name();
    s.append(name.as_str());
    s.append(" about:\n");
    s.append(expanded);
    s
}

/// Template substitution is deterministic: the same style and expanded seed
/// always produce byte-identical poem and title prompts.
pub proof fn lemma_templates_deterministic(
    style_a: PoemType,
    expanded_a: Seq<char>,
    style_b: PoemType,
    expanded_b: Seq<char>,
)
    requires
        style_a == style_b,
        expanded_a == expanded_b,
    ensures
        poem_prompt_spec(style_a, expanded_a) == poem_prompt_spec(style_b, expanded_b),
        title_prompt_spec(style_a, expanded_a) == title_prompt_spec(style_b, expanded_b),
{
}

/// Everything a completed run hands to the artifact writer.
pub struct RunOutput {
    pub style: PoemType,
    pub seed_prompt: String,
    pub expanded_seed: String,
    pub generated_prompt: String,
    pub title: String,
    pub poem: String,
}

impl RunOutput {
    /// The outputs fit the chain's templates: the generated prompt is the
    /// substitution of the style and the expanded seed.
    pub open spec fn consistent(self) -> bool {
        self.generated_prompt@ == poem_prompt_spec(self.style, self.expanded_seed@)
    }
}

/// The state of one run of the chain. Stages advance strictly in order, each
/// carrying forward what earlier stages produced; there is no retry and no
/// way back from `Failed`.
pub enum ChainStage {
    /// Awaiting the seed-expansion completion.
    Expand { style: PoemType, seed: String },
    /// Awaiting the title completion.
    Title { style: PoemType, seed: String, expanded: String },
    /// Awaiting the poem completion.
    Poem { style: PoemType, seed: String, expanded: String, title: String },
    /// Every stage succeeded; the run's outputs are ready to persist.
    Done { output: RunOutput },
    /// A stage failed; the run is over and nothing may be persisted.
    Failed { message: String },
}

impl ChainStage {
    /// Starts a run from the drawn style and seed prompt.
    pub fn start(style: PoemType, seed: String) -> (r: ChainStage)
        ensures
            r matches ChainStage::Expand { style: st, seed: sd } && st == style && sd == seed,
    {
        ChainStage::Expand { style, seed }
    }

    /// The completion request the current stage needs: the prompt to send and
    /// the settings preset for that stage, or `None` once the run is over.
    pub fn request(&self) -> (r: Option<(String, AiSettings)>)
        ensures
            match *self {
                ChainStage::Expand { style, ref seed } => (r matches Some((p, s))
                    && p@ == seed@
                    && s == AiSettings::seed_expansion_spec()),
                ChainStage::Title { style, ref expanded, .. } => (r matches Some((p, s))
                    && p@ == title_prompt_spec(style, expanded@)
                    && s == AiSettings::title_spec()),
                ChainStage::Poem { style, ref expanded, .. } => (r matches Some((p, s))
                    && p@ == poem_prompt_spec(style, expanded@)
                    && s == AiSettings::poem_spec()),
                ChainStage::Done { .. } => r is None,
                ChainStage::Failed { .. } => r is None,
            },
    {
        match self {
            ChainStage::Expand { seed, .. } => Some((seed.clone(), AiSettings::new_prompt())),
            ChainStage::Title { style, expanded, .. } => Some((
                title_prompt(*style, expanded.as_str()),
                AiSettings::new_title(),
            )),
            ChainStage::Poem { style, expanded, .. } => Some((
                poem_prompt(*style, expanded.as_str()),
                AiSettings::new_poem(),
            )),
            ChainStage::Done { .. } => None,
            ChainStage::Failed { .. } => None,
        }
    }

    /// Advances the run on the outcome of the pending completion. An error
    /// at any stage moves the run to `Failed` with the diagnostic message; a
    /// success feeds the stage's output, trimmed where the stage calls for
    /// it, into the next stage. Only the poem stage can complete the run.
    pub fn step(self, outcome: Result<String, String>) -> (r: ChainStage)
        ensures
            outcome matches Err(ref e) ==> (r matches ChainStage::Failed { ref message }
                && message@ == e@),
            outcome matches Ok(ref out) ==> match self {
                ChainStage::Expand { style, ref seed } => (r matches ChainStage::Title {
                    style: st,
                    seed: ref sd,
                    ref expanded,
                } && st == style && sd@ == seed@ && expanded@ == trim_spec(out@)),
                ChainStage::Title { style, ref seed, ref expanded } => (r
                    matches ChainStage::Poem {
                    style: st,
                    seed: ref sd,
                    expanded: ref ex,
                    ref title,
                } && st == style && sd@ == seed@ && ex@ == expanded@ && title@ == out@),
                ChainStage::Poem { style, ref seed, ref expanded, ref title } => (r
                    matches ChainStage::Done { ref output }
                    && output.style == style
                    && output.seed_prompt@ == seed@
                    && output.expanded_seed@ == expanded@
                    && output.generated_prompt@ == poem_prompt_spec(style, expanded@)
                    && output.title@ == trim_spec(title@)
                    && output.poem@ == trim_spec(out@)
                    && output.consistent()),
                ChainStage::Done { .. } => r == self,
                ChainStage::Failed { .. } => r == self,
            },
            // An errored stage never yields a finished run: no artifact may
            // be persisted after a failure.
            (outcome is Err) ==> !(r is Done),
    {
        match outcome {
            Err(message) => ChainStage::Failed { message },
            Ok(out) => match self {
                ChainStage::Expand { style, seed } => ChainStage::Title {
                    style,
                    seed,
                    expanded: trim(out.as_str()),
                },
                ChainStage::Title { style, seed, expanded } => ChainStage::Poem {
                    style,
                    seed,
                    expanded,
                    title: out,
                },
                ChainStage::Poem { style, seed, expanded, title } => {
                    let generated_prompt = poem_prompt(style, expanded.as_str());
                    let trimmed_title = trim(title.as_str());
                    let trimmed_poem = trim(out.as_str());
                    ChainStage::Done {
                        output: RunOutput {
                            style,
                            seed_prompt: seed,
                            expanded_seed: expanded,
                            generated_prompt,
                            title: trimmed_title,
                            poem: trimmed_poem,
                        },
                    }
                },
                ChainStage::Done { output } => ChainStage::Done { output },
                ChainStage::Failed { message } => ChainStage::Failed { message },
            },
        }
    }
}

} // verus!
