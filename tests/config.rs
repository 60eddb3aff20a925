use holefill::command::{Arguments, Options, SetKey, Subcommand, Task};
use holefill::config::Config;
use holefill::error::Error;
use holefill::fill::Fill;
use holefill::model::Model;
use holefill::provider::Provider;
use holefill::service::Service;

#[test]
fn provider_names_parse_in_any_case() {
    assert_eq!(Provider::from_str("OpenAI"), Ok(Provider::OpenAI));
    assert_eq!(Provider::from_str("ANTHROPIC"), Ok(Provider::Anthropic));
    assert_eq!(Provider::from_str("other"), Err("Invalid service: other".to_string()));
    assert_eq!(Provider::OpenAI.to_string(), "openai");
    assert_eq!(Provider::Anthropic.to_string(), "anthropic");
    assert_eq!(Provider::OpenAI.url(), "https://api.openai.com/v1/chat/completions");
}

#[test]
fn service_names_parse_in_any_case() {
    assert_eq!(Service::from_str("OPENAI"), Ok(Service::OpenAI));
    assert_eq!(Service::from_str("Anthropic"), Ok(Service::Anthropic));
    assert_eq!(Service::from_str("x"), Err("Invalid service: x".to_string()));
    assert_eq!(Service::Anthropic.to_string(), "anthropic");
    assert_eq!(Service::OpenAI.url(), "https://api.openai.com/v1/chat/completions");
}

#[test]
fn model_names_parse_in_any_case() {
    assert_eq!(Model::from_str("GPT-4"), Ok(Model::GPT4));
    assert_eq!(Model::from_str("gpt-4-32k"), Ok(Model::GPT4_32K));
    assert_eq!(Model::from_str("Gpt-3.5-Turbo"), Ok(Model::GPT3_5Turbo));
    assert_eq!(Model::from_str("gpt-3.5-turbo-16k"), Ok(Model::GPT3_5turbo16k));
    assert_eq!(Model::from_str("gpt-5"), Err("Invalid model: gpt-5".to_string()));
    assert_eq!(Model::GPT3_5turbo16k.to_string(), "gpt-3.5-turbo-16k");
    assert_eq!(Provider::from(Model::GPT4), Provider::OpenAI);
}

#[test]
fn keys_are_stored_per_provider() {
    let mut config = Config::default();
    assert!(!config.has_key(Provider::OpenAI));
    assert!(!config.has_key(Provider::Anthropic));
    config.set_key(Provider::OpenAI, "sk".to_string());
    assert!(config.has_key(Provider::OpenAI));
    assert!(!config.has_key(Provider::Anthropic));
    assert_eq!(config.open_ai_api_key, "sk");
}

#[test]
fn credential_needs_a_key() {
    let mut config = Config::default();
    assert_eq!(Model::GPT4.credential(&config), Err(Error::MissingKey(Provider::OpenAI)));
    config.set_key(Provider::OpenAI, "k1".to_string());
    assert_eq!(Model::GPT4.credential(&config), Ok("k1".to_string()));
}

#[test]
fn set_key_command_updates_config() {
    let mut config = Config::default();
    config.set_key(Provider::OpenAI, "old".to_string());
    let updated = SetKey { service: Provider::Anthropic, api_key: "new".to_string() }.run(config);
    assert_eq!(updated.anthropic_api_key, "new");
    assert_eq!(updated.open_ai_api_key, "old");
}

#[test]
fn arguments_dispatch_to_the_subcommand() {
    let args = Arguments {
        options: Options { model: Model::GPT4 },
        subcommand: Subcommand::SetKey(SetKey {
            service: Provider::OpenAI,
            api_key: "abc".to_string(),
        }),
    };
    match args.run(Config::default()) {
        Task::SaveConfig(c) => assert_eq!(c.open_ai_api_key, "abc"),
        Task::Fill(..) => panic!("expected a config to save"),
    }
    let args = Arguments {
        options: Options { model: Model::GPT3_5Turbo },
        subcommand: Subcommand::Fill(Fill { file: "f.rs".to_string(), context: vec![] }),
    };
    match args.run(Config::default()) {
        Task::Fill(f, m) => {
            assert_eq!(f.file, "f.rs");
            assert_eq!(m, Model::GPT3_5Turbo);
        }
        Task::SaveConfig(_) => panic!("expected a fill"),
    }
}
