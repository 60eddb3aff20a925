use vstd::prelude::*;

use crate::provider::Provider;

verus! {

/// The stored API keys, one for each provider; an empty key is no key.
pub struct Config {
    pub anthropic_api_key: String,
    pub open_ai_api_key: String,
}

impl Config {
    /// The key stored for `p`.
    pub open spec fn key(&self, p: Provider) -> Seq<char> {
        match p {
            Provider::Anthropic => self.anthropic_api_key@,
            Provider::OpenAI => self.open_ai_api_key@,
        }
    }

    /// Whether a key is stored for `service`.
    pub fn has_key(&self, service: Provider) -> (r: bool)
        ensures
            r == (self.key(service).len() > 0),
    {
        match service {
            Provider::Anthropic => !self.anthropic_api_key.as_str().is_empty(),
            Provider::OpenAI => !self.open_ai_api_key.as_str().is_empty(),
        }
    }

    /// Stores `api_key` for `service`; the other key stays.
    pub fn set_key(&mut self, service: Provider, api_key: String)
        ensures
            final(self).key(service) == api_key@,
            forall|p: Provider| p != service ==> final(self).key(p) == old(self).key(p),
    {
        match service {
            Provider::Anthropic => self.anthropic_api_key = api_key,
            Provider::OpenAI => self.open_ai_api_key = api_key,
        }
    }
}

impl Default for Config {
    /// No key for any provider.
    fn default() -> (r: Config)
        ensures
            r.key(Provider::Anthropic).len() == 0,
            r.key(Provider::OpenAI).len() == 0,
    {
        Config { anthropic_api_key: String::new(), open_ai_api_key: String::new() }
    }
}

} // verus!
