use openai_cli::services::handlers::ClientError;
use openai_cli::services::handlers::ImageGenerationData;
use openai_cli::services::handlers::ImageGenerationResponse;
use openai_cli::services::handlers::TextCompletionChoice;
use openai_cli::services::handlers::TextCompletionResponse;
use openai_cli::services::handlers::collect_text;
use openai_cli::services::handlers::collect_urls;
use openai_cli::services::handlers::diagnostic;
use openai_cli::services::handlers::handle_image_response;
use openai_cli::services::handlers::handle_text_response;
use openai_cli::services::handlers::image_outcome;
use openai_cli::services::handlers::render_image_output;
use openai_cli::services::handlers::render_text_output;
use openai_cli::services::handlers::text_outcome;

fn choice(text: &str, index: u32) -> TextCompletionChoice {
    TextCompletionChoice {
        text: String::from(text),
        index,
        logprobs: None,
        finish_reason: String::from("stop"),
    }
}

fn text_response(choices: Vec<TextCompletionChoice>) -> TextCompletionResponse {
    TextCompletionResponse {
        id: String::from("cmpl-1"),
        object: String::from("text_completion"),
        created: 1589478378,
        model: String::from("text-davinci-003"),
        choices,
    }
}

#[test]
fn choices_concatenate_in_server_order() {
    let r = text_response(vec![choice("A", 0), choice("B", 1), choice("C", 2)]);
    assert_eq!(collect_text(&r), "ABC");
    match text_outcome(200, Some(r)) {
        Ok(s) => assert_eq!(s, "ABC"),
        Err(_) => panic!("expected success"),
    }
}

#[test]
fn urls_keep_server_order() {
    let r = ImageGenerationResponse {
        created: 1,
        data: vec![
            ImageGenerationData { url: String::from("https://x/1") },
            ImageGenerationData { url: String::from("https://x/2") },
        ],
    };
    let urls = collect_urls(&r);
    assert_eq!(urls, vec![String::from("https://x/1"), String::from("https://x/2")]);
    assert_eq!(render_image_output(&urls), "https://x/1\n\nhttps://x/2\n\n");
}

#[test]
fn non_200_maps_to_service_error_with_status() {
    for status in [400u16, 404, 429, 500] {
        match text_outcome(status, None) {
            Err(ClientError::Service(e)) => {
                assert_eq!(e.status, status);
                assert_eq!(e.message, "Error generating text");
            },
            _ => panic!("expected a service error"),
        }
        match image_outcome(status, None) {
            Err(ClientError::Service(e)) => {
                assert_eq!(e.status, status);
                assert_eq!(e.message, "Error generating images");
            },
            _ => panic!("expected a service error"),
        }
    }
}

#[test]
fn happy_path_text() {
    let body = "{\"id\":\"cmpl-1\",\"object\":\"text_completion\",\"created\":1589478378,\
                \"model\":\"text-davinci-003\",\"choices\":[{\"text\":\"world\",\"index\":0,\
                \"finish_reason\":\"stop\"}]}";
    match handle_text_response(200, body) {
        Ok(s) => {
            assert_eq!(s, "world");
            assert_eq!(render_text_output(&s), "world\n\n");
        },
        Err(_) => panic!("expected success"),
    }
}

#[test]
fn server_error_text() {
    match handle_text_response(500, "anything") {
        Err(ClientError::Service(e)) => {
            assert_eq!(e.message, "Error generating text");
            assert_eq!(e.status, 500);
        },
        _ => panic!("expected a service error"),
    }
}

#[test]
fn happy_path_images() {
    let body = "{\"created\":1,\"data\":[{\"url\":\"https://x/1\"},{\"url\":\"https://x/2\"}]}";
    match handle_image_response(200, body) {
        Ok(urls) => {
            assert_eq!(render_image_output(&urls), "https://x/1\n\nhttps://x/2\n\n");
        },
        Err(_) => panic!("expected success"),
    }
}

#[test]
fn malformed_json_on_200_is_a_decode_error() {
    match handle_text_response(200, "not json") {
        Err(ClientError::Decode) => {},
        _ => panic!("expected a decode error"),
    }
    let d = diagnostic(&ClientError::Decode);
    assert!(d.contains("DecodeError"));
}

#[test]
fn missing_required_field_is_a_decode_error() {
    // no "choices" member
    let body = "{\"id\":\"a\",\"object\":\"b\",\"created\":1,\"model\":\"m\"}";
    assert!(matches!(handle_text_response(200, body), Err(ClientError::Decode)));
}

#[test]
fn duplicate_field_is_a_decode_error() {
    let body = "{\"created\":1,\"created\":2,\"data\":[]}";
    assert!(matches!(handle_image_response(200, body), Err(ClientError::Decode)));
}

#[test]
fn trailing_garbage_is_a_decode_error() {
    let body = "{\"created\":1,\"data\":[]} x";
    assert!(matches!(handle_image_response(200, body), Err(ClientError::Decode)));
}

#[test]
fn fractional_created_is_a_decode_error() {
    let body = "{\"created\":1.5,\"data\":[]}";
    assert!(matches!(handle_image_response(200, body), Err(ClientError::Decode)));
}

#[test]
fn unknown_members_are_tolerated() {
    let body = "{\"created\":1,\"usage\":{\"total\":[1,2,{\"a\":null}]},\
                \"data\":[{\"url\":\"u\",\"extra\":true}]}";
    match handle_image_response(200, body) {
        Ok(urls) => assert_eq!(urls, vec![String::from("u")]),
        Err(_) => panic!("expected success"),
    }
}

#[test]
fn whitespace_and_member_order_do_not_matter() {
    let body = " { \"data\" : [ ] , \"created\" : 7 } ";
    match handle_image_response(200, body) {
        Ok(urls) => assert_eq!(urls.len(), 0),
        Err(_) => panic!("expected success"),
    }
}

#[test]
fn escapes_in_response_strings_are_resolved() {
    let body = "{\"id\":\"a\",\"object\":\"b\",\"created\":1,\"model\":\"m\",\
                \"choices\":[{\"text\":\"\\u0041\\n\\\"q\\\" \\ud83c\\udf31\",\"index\":0,\
                \"finish_reason\":\"stop\"}]}";
    match handle_text_response(200, body) {
        Ok(s) => assert_eq!(s, "A\n\"q\" 🌱"),
        Err(_) => panic!("expected success"),
    }
}

#[test]
fn logprobs_may_be_null_absent_or_structured() {
    let with_null = "{\"id\":\"a\",\"object\":\"b\",\"created\":1,\"model\":\"m\",\
                     \"choices\":[{\"text\":\"t\",\"index\":0,\"logprobs\":null,\
                     \"finish_reason\":\"stop\"}]}";
    assert!(handle_text_response(200, with_null).is_ok());
    let with_record = "{\"id\":\"a\",\"object\":\"b\",\"created\":1,\"model\":\"m\",\
                       \"choices\":[{\"text\":\"t\",\"index\":0,\"logprobs\":{\
                       \"token_logprobs\":[[-0.5,1e-2]],\"text_offset\":[[0,5]],\
                       \"top_logprobs\":[[]]},\"finish_reason\":\"stop\"}]}";
    assert!(handle_text_response(200, with_record).is_ok());
    let with_bad_record = "{\"id\":\"a\",\"object\":\"b\",\"created\":1,\"model\":\"m\",\
                           \"choices\":[{\"text\":\"t\",\"index\":0,\"logprobs\":{\
                           \"token_logprobs\":[[]]},\"finish_reason\":\"stop\"}]}";
    assert!(matches!(handle_text_response(200, with_bad_record), Err(ClientError::Decode)));
}

#[test]
fn oversized_index_is_a_decode_error() {
    let body = "{\"id\":\"a\",\"object\":\"b\",\"created\":1,\"model\":\"m\",\
                \"choices\":[{\"text\":\"t\",\"index\":4294967296,\
                \"finish_reason\":\"stop\"}]}";
    assert!(matches!(handle_text_response(200, body), Err(ClientError::Decode)));
}

#[test]
fn handler_diagnostics_never_carry_the_credential() {
    let cred = "sk-test";
    for status in [401u16, 500] {
        match handle_text_response(status, "") {
            Err(e) => assert!(!diagnostic(&e).contains(cred)),
            Ok(_) => panic!("expected an error"),
        }
    }
    match handle_text_response(200, "not json") {
        Err(e) => assert!(!diagnostic(&e).contains(cred)),
        Ok(_) => panic!("expected an error"),
    }
}

#[test]
fn lone_low_surrogate_escape_is_a_decode_error() {
    let body = "{\"id\":\"a\",\"object\":\"b\",\"created\":1,\"model\":\"m\",\
                \"choices\":[{\"text\":\"\\udc00\",\"index\":0,\
                \"finish_reason\":\"stop\"}]}";
    assert!(matches!(handle_text_response(200, body), Err(ClientError::Decode)));
}

#[test]
fn duplicate_choice_member_is_a_decode_error() {
    let body = "{\"id\":\"a\",\"object\":\"b\",\"created\":1,\"model\":\"m\",\
                \"choices\":[{\"text\":\"t\",\"text\":\"u\",\"index\":0,\
                \"finish_reason\":\"stop\"}]}";
    assert!(matches!(handle_text_response(200, body), Err(ClientError::Decode)));
}
