//! Model profiles: name, description, abilities, context length, pricing.

use vstd::prelude::*;

verus! {

/// A capability that a language model may support.
#[derive(Debug, Clone, Copy, PartialEq, Eq, Structural)]
pub enum Ability {
    /// The model can use external tools/functions.
    ToolUse,
    /// The model can process and understand images.
    Vision,
    /// The model can process and understand audio.
    Audio,
    /// The model can perform web searches natively.
    WebSearch,
}

/// Which request parameters a model supports.
#[derive(Debug, Clone, Copy, PartialEq, Eq, Structural)]
pub struct SupportedParameters {
    /// Whether tools are supported.
    pub tools: bool,
    /// Whether tool choice is supported.
    pub tool_choice: bool,
    /// Whether a token limit is supported.
    pub max_tokens: bool,
    /// Whether sampling temperature is supported.
    pub temperature: bool,
    /// Whether nucleus sampling is supported.
    pub top_p: bool,
    /// Whether reasoning is supported.
    pub reasoning: bool,
    /// Whether including reasoning is supported.
    pub include_reasoning: bool,
    /// Whether structured outputs are supported.
    pub structured_outputs: bool,
    /// Whether a response format is supported.
    pub response_format: bool,
    /// Whether stop sequences are supported.
    pub stop: bool,
    /// Whether frequency penalty is supported.
    pub frequency_penalty: bool,
    /// Whether presence penalty is supported.
    pub presence_penalty: bool,
    /// Whether a random seed is supported.
    pub seed: bool,
}

/// Pricing of a model's capabilities, as fixed-point amounts in billionths
/// of the account currency unit per item.
#[derive(Debug, Clone, Copy, PartialEq, Eq, Structural)]
pub struct Pricing {
    /// Price per prompt token.
    pub prompt: u64,
    /// Price per completion token.
    pub completion: u64,
    /// Price per request.
    pub request: u64,
    /// Price per image processed.
    pub image: u64,
    /// Price per web search.
    pub web_search: u64,
    /// Price for internal reasoning.
    pub internal_reasoning: u64,
    /// Price for reading from input cache.
    pub input_cache_read: u64,
    /// Price for writing to input cache.
    pub input_cache_write: u64,
}

/// A language model's profile: its name, description, abilities, maximum
/// context length, and optional pricing.
#[derive(Debug, Clone)]
pub struct Profile {
    /// The name of the model.
    pub name: String,
    /// A description of the model.
    pub description: String,
    /// The abilities supported by the model.
    pub abilities: Vec<Ability>,
    /// The maximum context length supported by the model.
    pub context_length: u32,
    /// Optional pricing information for the model.
    pub pricing: Option<Pricing>,
}

impl Profile {
    /// Creates a new `Profile` with the given name, description, and context
    /// length, no abilities, and no pricing.
    pub fn new(name: &str, description: &str, context_length: u32) -> (p: Profile)
        ensures
            p.name@ == name@,
            p.description@ == description@,
            p.abilities@ =~= Seq::<Ability>::empty(),
            p.context_length == context_length,
            p.pricing is None,
    {
        Profile {
            name: name.to_owned(),
            description: description.to_owned(),
            abilities: Vec::new(),
            context_length,
            pricing: None,
        }
    }

    /// Adds a single ability to the profile.
    #[must_use]
    pub fn with_ability(self, ability: Ability) -> (p: Profile)
        ensures
            p.name == self.name,
            p.description == self.description,
            p.abilities@ == self.abilities@.push(ability),
            p.context_length == self.context_length,
            p.pricing == self.pricing,
    {
        let mut p = self;
        p.abilities.push(ability);
        p
    }

    /// Adds multiple abilities to the profile, in order.
    #[must_use]
    pub fn with_abilities(self, abilities: Vec<Ability>) -> (p: Profile)
        ensures
            p.name == self.name,
            p.description == self.description,
            p.abilities@ == self.abilities@ + abilities@,
            p.context_length == self.context_length,
            p.pricing == self.pricing,
    {
        let mut p = self;
        let mut abilities = abilities;
        p.abilities.append(&mut abilities);
        p
    }

    /// Sets the pricing information for the profile.
    #[must_use]
    pub fn with_pricing(self, pricing: Pricing) -> (p: Profile)
        ensures
            p.name == self.name,
            p.description == self.description,
            p.abilities == self.abilities,
            p.context_length == self.context_length,
            p.pricing == Some(pricing),
    {
        let mut p = self;
        p.pricing = Some(pricing);
        p
    }
}

} // verus!
