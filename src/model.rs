use vstd::prelude::*;

use crate::config::Config;
use crate::error::Error;
use crate::provider::Provider;
use crate::text::{lower_of, lowercase, same_text};

verus! {

/// A completion model.
#[allow(non_camel_case_types)]
#[derive(Debug, Clone, Copy, PartialEq, Eq, Structural)]
pub enum Model {
    GPT4,
    GPT4_32K,
    GPT3_5Turbo,
    GPT3_5turbo16k,
}

/// The model that a lowercase name names.
pub open spec fn model_named(l: Seq<char>) -> Option<Model> {
    if l == "gpt-4"@ {
        Some(Model::GPT4)
    } else if l == "gpt-4-32k"@ {
        Some(Model::GPT4_32K)
    } else if l == "gpt-3.5-turbo"@ {
        Some(Model::GPT3_5Turbo)
    } else if l == "gpt-3.5-turbo-16k"@ {
        Some(Model::GPT3_5turbo16k)
    } else {
        None
    }
}

/// The name of a model.
pub open spec fn model_name(m: Model) -> Seq<char> {
    match m {
        Model::GPT4 => "gpt-4"@,
        Model::GPT4_32K => "gpt-4-32k"@,
        Model::GPT3_5Turbo => "gpt-3.5-turbo"@,
        Model::GPT3_5turbo16k => "gpt-3.5-turbo-16k"@,
    }
}

/// The provider that serves a model.
pub open spec fn provider_of(m: Model) -> Provider {
    Provider::OpenAI
}

impl Model {
    /// The model that the lowercase name `l` names.
    pub fn from_lowercase(l: &str) -> (r: Option<Model>)
        ensures
            r == model_named(l@),
    {
        if same_text(l, "gpt-4") {
            Some(Model::GPT4)
        } else if same_text(l, "gpt-4-32k") {
            Some(Model::GPT4_32K)
        } else if same_text(l, "gpt-3.5-turbo") {
            Some(Model::GPT3_5Turbo)
        } else if same_text(l, "gpt-3.5-turbo-16k") {
            Some(Model::GPT3_5turbo16k)
        } else {
            None
        }
    }

    /// The model that `s` names, in any case.
    pub fn from_str(s: &str) -> (r: Result<Model, String>)
        ensures
            match model_named(lower_of(s@)) {
                Some(m) => r == Ok::<Model, String>(m),
                None => r matches Err(e) && e@ == "Invalid model: "@ + s@,
            },
    {
        let l = lowercase(s);
        match Model::from_lowercase(l.as_str()) {
            Some(m) => Ok(m),
            None => {
                let mut e = String::from_str("Invalid model: ");
                e.append(s);
                Err(e)
            },
        }
    }

    /// The model's name.
    pub fn to_string(&self) -> (r: String)
        ensures
            r@ == model_name(*self),
    {
        match self {
            Model::GPT4 => String::from_str("gpt-4"),
            Model::GPT4_32K => String::from_str("gpt-4-32k"),
            Model::GPT3_5Turbo => String::from_str("gpt-3.5-turbo"),
            Model::GPT3_5turbo16k => String::from_str("gpt-3.5-turbo-16k"),
        }
    }

    /// The API key to ask the model with: the one stored for its provider, which
    /// must not be empty.
    pub fn credential(&self, config: &Config) -> (r: Result<String, Error>)
        ensures
            config.key(provider_of(*self)).len() > 0 ==> (r matches Ok(k) && k@ == config.key(
                provider_of(*self),
            )),
            config.key(provider_of(*self)).len() == 0 ==> r == Err::<String, Error>(
                Error::MissingKey(provider_of(*self)),
            ),
    {
        let provider: Provider = Provider::from(*self);
        if config.has_key(provider) {
            Ok(config.open_ai_api_key.clone())
        } else {
            Err(Error::MissingKey(provider))
        }
    }
}

impl From<Model> for Provider {
    fn from(m: Model) -> (r: Provider) {
        match m {
            Model::GPT4 | Model::GPT4_32K | Model::GPT3_5Turbo | Model::GPT3_5turbo16k => {
                Provider::OpenAI
            },
        }
    }
}

impl vstd::std_specs::convert::FromSpecImpl<Model> for Provider {
    open spec fn obeys_from_spec() -> bool {
        true
    }

    open spec fn from_spec(m: Model) -> Provider {
        provider_of(m)
    }
}

} // verus!
