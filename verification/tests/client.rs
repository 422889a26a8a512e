use openai_cli::client::get_headers;
use openai_cli::client::validate_credential;
use openai_cli::completions_url;
use openai_cli::images_url;
use openai_cli::services::handlers::ClientError;
use openai_cli::services::handlers::diagnostic;

#[test]
fn headers_carry_bearer_token_and_content_type() {
    let hs = get_headers("sk-test");
    assert_eq!(hs.len(), 2);
    assert_eq!(hs[0].0, "Authorization");
    assert_eq!(hs[0].1, "Bearer sk-test");
    assert_eq!(hs[1].0, "Content-Type");
    assert_eq!(hs[1].1, "application/json");
}

#[test]
fn endpoints_are_fixed() {
    assert_eq!(completions_url(), "https://api.openai.com/v1/completions");
    assert_eq!(images_url(), "https://api.openai.com/v1/images/generations");
}

#[test]
fn missing_credential_is_rejected_before_any_traffic() {
    assert!(matches!(validate_credential(None), Err(ClientError::MissingCredential)));
    assert!(matches!(
        validate_credential(Some(String::new())),
        Err(ClientError::MissingCredential)
    ));
    let d = diagnostic(&ClientError::MissingCredential);
    assert!(d.contains("OPENAI_API_KEY"));
}

#[test]
fn present_credential_is_returned_unchanged() {
    match validate_credential(Some(String::from("sk-test"))) {
        Ok(t) => assert_eq!(t, "sk-test"),
        Err(_) => panic!("expected the token back"),
    }
}

#[test]
fn transport_diagnostic_keeps_the_underlying_message() {
    let d = diagnostic(&ClientError::Transport(String::from("connection refused")));
    assert_eq!(d, "Error sending request: connection refused");
}
