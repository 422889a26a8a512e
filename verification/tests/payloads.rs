use openai_cli::commands::Args;
use openai_cli::commands::CommandTypes;
use openai_cli::commands::ImageCommand;
use openai_cli::commands::Temperature;
use openai_cli::commands::TextCommand;
use openai_cli::services::handlers::prepare_request;
use openai_cli::services::handlers::ImageGenerationPayload;
use openai_cli::services::handlers::TextCompletionPayload;

#[test]
fn text_defaults_serialize() {
    let p = TextCompletionPayload::new("hello", &None, None, None);
    assert_eq!(
        p.to_json(),
        "{\"model\":\"text-davinci-003\",\"prompt\":\"hello\",\"temperature\":0.7,\"max_tokens\":100}"
    );
}

#[test]
fn text_explicit_values_serialize() {
    let t = Temperature::new(1, "5").unwrap();
    let p = TextCompletionPayload::new(
        "x",
        &Some(String::from("gpt-foo")),
        Some(t),
        Some(32),
    );
    assert_eq!(
        p.to_json(),
        "{\"model\":\"gpt-foo\",\"prompt\":\"x\",\"temperature\":1.5,\"max_tokens\":32}"
    );
}

#[test]
fn text_zero_temperature_serializes_with_fraction() {
    let t = Temperature::new(0, "0").unwrap();
    let p = TextCompletionPayload::new("x", &None, Some(t), Some(64));
    assert_eq!(
        p.to_json(),
        "{\"model\":\"text-davinci-003\",\"prompt\":\"x\",\"temperature\":0.0,\"max_tokens\":64}"
    );
}

#[test]
fn temperature_rejects_bad_fractions() {
    assert!(Temperature::new(1, "").is_none());
    assert!(Temperature::new(1, "5a").is_none());
    assert!(Temperature::new(1, "25").is_some());
}

#[test]
fn image_defaults_serialize() {
    let p = ImageGenerationPayload::new("a cat", None, None);
    assert_eq!(p.to_json(), "{\"prompt\":\"a cat\",\"n\":1,\"size\":\"1024x1024\"}");
}

#[test]
fn image_explicit_values_serialize() {
    let p = ImageGenerationPayload::new("a dog", Some(4), Some(String::from("512x512")));
    assert_eq!(p.to_json(), "{\"prompt\":\"a dog\",\"n\":4,\"size\":\"512x512\"}");
}

#[test]
fn image_count_may_be_negative_and_is_forwarded() {
    let p = ImageGenerationPayload::new("x", Some(-3), None);
    assert_eq!(p.to_json(), "{\"prompt\":\"x\",\"n\":-3,\"size\":\"1024x1024\"}");
}

#[test]
fn prompt_field_is_named_prompt_in_both_payloads() {
    let t = TextCompletionPayload::new("the user text", &None, None, None);
    assert!(t.to_json().contains("\"prompt\":\"the user text\""));
    assert!(!t.to_json().contains("description"));
    let i = ImageGenerationPayload::new("the user text", None, None);
    assert!(i.to_json().contains("\"prompt\":\"the user text\""));
    assert!(!i.to_json().contains("description"));
    assert!(!i.to_json().contains("number_of_images"));
    assert!(!i.to_json().contains("image_size"));
}

#[test]
fn prepare_request_gives_endpoint_and_exact_body() {
    let (url, body) = prepare_request(Args {
        commands: CommandTypes::GenerateText(TextCommand {
            description: String::from("x"),
            model: Some(String::from("gpt-foo")),
            temperature: Some(Temperature::new(1, "5").unwrap()),
            max_tokens: Some(32),
        }),
    });
    assert_eq!(url, "https://api.openai.com/v1/completions");
    assert_eq!(
        body,
        "{\"model\":\"gpt-foo\",\"prompt\":\"x\",\"temperature\":1.5,\"max_tokens\":32}"
    );

    let (url, body) = prepare_request(Args {
        commands: CommandTypes::GenerateImage(ImageCommand {
            description: String::from("a cat"),
        }),
    });
    assert_eq!(url, "https://api.openai.com/v1/images/generations");
    assert_eq!(body, "{\"prompt\":\"a cat\",\"n\":1,\"size\":\"1024x1024\"}");
}

#[test]
fn string_values_are_escaped() {
    let p = ImageGenerationPayload::new("a \"b\" \\ c\nd\t\u{1}", None, None);
    assert_eq!(
        p.to_json(),
        "{\"prompt\":\"a \\\"b\\\" \\\\ c\\nd\\t\\u0001\",\"n\":1,\"size\":\"1024x1024\"}"
    );
}

#[test]
fn non_ascii_prompt_passes_through_unescaped() {
    let p = ImageGenerationPayload::new("été 🌱", None, None);
    assert_eq!(p.to_json(), "{\"prompt\":\"été 🌱\",\"n\":1,\"size\":\"1024x1024\"}");
}
