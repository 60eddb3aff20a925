use vstd::prelude::*;

use crate::text::{lower_of, lowercase, same_text};

verus! {

/// A service for which an API key can be stored.
#[derive(Debug, Clone, Copy, PartialEq, Eq, Structural)]
pub enum Service {
    OpenAI,
    Anthropic,
}

/// The service that a lowercase name names.
pub open spec fn service_named(l: Seq<char>) -> Option<Service> {
    if l == "openai"@ {
        Some(Service::OpenAI)
    } else if l == "anthropic"@ {
        Some(Service::Anthropic)
    } else {
        None
    }
}

/// The name of a service.
pub open spec fn service_name(p: Service) -> Seq<char> {
    match p {
        Service::OpenAI => "openai"@,
        Service::Anthropic => "anthropic"@,
    }
}

impl Service {
    /// The service that the lowercase name `l` names.
    pub fn from_lowercase(l: &str) -> (r: Option<Service>)
        ensures
            r == service_named(l@),
    {
        if same_text(l, "openai") {
            Some(Service::OpenAI)
        } else if same_text(l, "anthropic") {
            Some(Service::Anthropic)
        } else {
            None
        }
    }

    /// The service that `s` names, in any case.
    pub fn from_str(s: &str) -> (r: Result<Service, String>)
        ensures
            match service_named(lower_of(s@)) {
                Some(p) => r == Ok::<Service, String>(p),
                None => r matches Err(e) && e@ == "Invalid service: "@ + s@,
            },
    {
        let l = lowercase(s);
        match Service::from_lowercase(l.as_str()) {
            Some(p) => Ok(p),
            None => {
                let mut e = String::from_str("Invalid service: ");
                e.append(s);
                Err(e)
            },
        }
    }

    /// The service's name.
    pub fn to_string(&self) -> (r: String)
        ensures
            r@ == service_name(*self),
    {
        match self {
            Service::OpenAI => String::from_str("openai"),
            Service::Anthropic => String::from_str("anthropic"),
        }
    }

    /// The endpoint of the service's chat completion API.
    pub fn url(&self) -> (r: &'static str)
        requires
            *self == Service::OpenAI,
        ensures
            r@ == "https://api.openai.com/v1/chat/completions"@,
    {
        "https://api.openai.com/v1/chat/completions"
    }
}

} // verus!
