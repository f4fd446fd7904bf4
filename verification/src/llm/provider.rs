//! Providers: services that list language models and hand them out by name.

use vstd::prelude::*;

use crate::llm::LanguageModel;

verus! {

/// A service that can list and provide language models.
pub trait LanguageModelProvider: Sized {
    /// The type of language model this provider creates.
    type Model: LanguageModel;

    /// Lists the names of all available models from this provider.
    fn list_models(&self) -> Vec<String>;

    /// Gets a specific model by name from this provider.
    fn get_model(&self, name: &str) -> Self::Model;

    /// Returns the provider's profile information.
    fn profile() -> Profile;
}

/// Provider profile information: a name and a description.
#[derive(Debug, Clone, PartialEq, Eq, Hash)]
pub struct Profile {
    name: String,
    description: String,
}

impl Profile {
    /// The provider's name, as a character sequence.
    pub closed spec fn spec_name(&self) -> Seq<char> {
        self.name@
    }

    /// The provider's description, as a character sequence.
    pub closed spec fn spec_description(&self) -> Seq<char> {
        self.description@
    }

    /// Creates a new profile with the given name and description.
    pub fn new(name: &str, description: &str) -> (p: Profile)
        ensures
            p.spec_name() == name@,
            p.spec_description() == description@,
    {
        Profile { name: name.to_owned(), description: description.to_owned() }
    }

    /// Returns the provider's name.
    pub fn name(&self) -> (r: &str)
        ensures
            r@ == self.spec_name(),
    {
        self.name.as_str()
    }

    /// Returns the provider's description.
    pub fn description(&self) -> (r: &str)
        ensures
            r@ == self.spec_description(),
    {
        self.description.as_str()
    }
}

} // verus!
