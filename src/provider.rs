use vstd::prelude::*;

use crate::text::{lower_of, lowercase, same_text};

verus! {

/// A provider of text completions.
#[derive(Debug, Clone, Copy, PartialEq, Eq, Structural)]
pub enum Provider {
    OpenAI,
    Anthropic,
}

/// The provider that a lowercase name names.
pub open spec fn provider_named(l: Seq<char>) -> Option<Provider> {
    if l == "openai"@ {
        Some(Provider::OpenAI)
    } else if l == "anthropic"@ {
        Some(Provider::Anthropic)
    } else {
        None
    }
}

/// The name of a provider.
pub open spec fn provider_name(p: Provider) -> Seq<char> {
    match p {
        Provider::OpenAI => "openai"@,
        Provider::Anthropic => "anthropic"@,
    }
}

impl Provider {
    /// The provider that the lowercase name `l` names.
    pub fn from_lowercase(l: &str) -> (r: Option<Provider>)
        ensures
            r == provider_named(l@),
    {
        if same_text(l, "openai") {
            Some(Provider::OpenAI)
        } else if same_text(l, "anthropic") {
            Some(Provider::Anthropic)
        } else {
            None
        }
    }

    /// The provider that `s` names, in any case.
    pub fn from_str(s: &str) -> (r: Result<Provider, String>)
        ensures
            match provider_named(lower_of(s@)) {
                Some(p) => r == Ok::<Provider, String>(p),
                None => r matches Err(e) && e@ == "Invalid service: "@ + s@,
            },
    {
        let l = lowercase(s);
        match Provider::from_lowercase(l.as_str()) {
            Some(p) => Ok(p),
            None => {
                let mut e = String::from_str("Invalid service: ");
                e.append(s);
                Err(e)
            },
        }
    }

    /// The provider's name.
    pub fn to_string(&self) -> (r: String)
        ensures
            r@ == provider_name(*self),
    {
        match self {
            Provider::OpenAI => String::from_str("openai"),
            Provider::Anthropic => String::from_str("anthropic"),
        }
    }

    /// The endpoint of the provider's chat completion API.
    pub fn url(&self) -> (r: &'static str)
        requires
            *self == Provider::OpenAI,
        ensures
            r@ == "https://api.openai.com/v1/chat/completions"@,
    {
        "https://api.openai.com/v1/chat/completions"
    }
}

} // verus!
