use aichat::client::openai::{ModelInfo, OpenAIClient, OpenAIConfig};
use aichat::config::message::{num_tokens_from_messages, Message, MessageRole};
use aichat::launch::{directive_path, launch_mode, Launch};
use aichat::render::RenderPath;

#[test]
fn test_serde() {
    assert_eq!(
        serde_json::to_string(&Message::new("Hello World").to_json()).unwrap(),
        "{\"role\":\"user\",\"content\":\"Hello World\"}"
    );
}

#[test]
fn messages_of_every_role_serialize() {
    let system = Message { role: MessageRole::System, content: "Be \"brief\".\n".to_string() };
    assert_eq!(
        serde_json::to_string(&system.to_json()).unwrap(),
        "{\"role\":\"system\",\"content\":\"Be \\\"brief\\\".\\n\"}"
    );
    let assistant = Message { role: MessageRole::Assistant, content: String::new() };
    let value = assistant.to_json();
    assert_eq!(value["role"].as_str(), Some("assistant"));
    assert_eq!(value["content"].as_str(), Some(""));
    assert_eq!(value.as_object().map(|object| object.len()), Some(2));
}

#[test]
fn new_message_is_from_the_user() {
    let message = Message::new("Hello World");
    assert_eq!(message.role, MessageRole::User);
    assert_eq!(message.content, "Hello World");
}

#[test]
fn role_names_are_lower_case() {
    assert_eq!(MessageRole::System.name(), "system");
    assert_eq!(MessageRole::Assistant.name(), "assistant");
    assert_eq!(MessageRole::User.name(), "user");
}

#[test]
fn tokens_are_counted_per_message() {
    assert_eq!(num_tokens_from_messages(&[]), 2);
    assert_eq!(num_tokens_from_messages(&[0]), 7);
    assert_eq!(num_tokens_from_messages(&[2]), 9);
    assert_eq!(num_tokens_from_messages(&[3, 4]), 19);
    assert_eq!(num_tokens_from_messages(&[10, 0, 100]), 127);
}

#[test]
fn models_carry_the_client_name() {
    let config = OpenAIConfig { name: None, api_key: None, organization_id: None, extra: None };
    assert_eq!(OpenAIClient::name(&config), "openai");
    let models = OpenAIClient::list_models(&config, 3);
    assert_eq!(
        models,
        vec![
            ModelInfo::new("openai", "gpt-3.5-turbo", Some(4096), 3),
            ModelInfo::new("openai", "gpt-3.5-turbo-16k", Some(16384), 3),
            ModelInfo::new("openai", "gpt-4", Some(8192), 3),
            ModelInfo::new("openai", "gpt-4-32k", Some(32768), 3),
        ]
    );

    let named = OpenAIConfig {
        name: Some("work".to_string()),
        api_key: Some("SECRET-REDACTED".to_string()),
        organization_id: None,
        extra: None,
    };
    assert_eq!(OpenAIClient::name(&named), "work");
    let models = OpenAIClient::list_models(&named, 0);
    assert_eq!(models.len(), 4);
    assert_eq!(models[2].client, "work");
    assert_eq!(models[2].name, "gpt-4");
    assert_eq!(models[2].max_tokens, Some(8192));
    assert_eq!(models[2].index, 0);
}

#[test]
fn launch_depends_on_the_input() {
    assert_eq!(launch_mode(None, None), Launch::Interactive);
    assert_eq!(
        launch_mode(Some("explain".to_string()), None),
        Launch::Directive("explain".to_string())
    );
    assert_eq!(
        launch_mode(None, Some("fn main() {}\n".to_string())),
        Launch::Directive("fn main() {}\n".to_string())
    );
    assert_eq!(
        launch_mode(Some("explain".to_string()), Some("fn main() {}\n".to_string())),
        Launch::Directive("explain\nfn main() {}\n".to_string())
    );
}

#[test]
fn directive_highlights_only_on_a_terminal() {
    assert_eq!(directive_path(true, true), RenderPath::Plain);
    assert_eq!(directive_path(true, false), RenderPath::Direct);
    assert_eq!(directive_path(false, true), RenderPath::Direct);
    assert_eq!(directive_path(false, false), RenderPath::Direct);
}
