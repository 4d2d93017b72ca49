use russenger::request_handler::{RussengerRequest, WebHookError, WebHookQuery};

fn segments(pairs: &[(&str, &str)]) -> Vec<(String, String)> {
    pairs.iter().map(|(key, value)| (key.to_string(), value.to_string())).collect()
}

#[test]
fn handshake_is_granted_for_the_right_token() {
    let args = segments(&[
        ("hub.mode", "subscribe"),
        ("hub.challenge", "1158201444"),
        ("hub.verify_token", "secret"),
    ]);
    let query = WebHookQuery::from_segments(&args, "secret").unwrap();
    assert_eq!(query.hub_challenge, "1158201444");
}

#[test]
fn handshake_does_not_mind_the_order_or_other_segments() {
    let args = segments(&[
        ("other", "x"),
        ("hub.verify_token", "secret"),
        ("hub.challenge", "c"),
        ("hub.mode", "subscribe"),
        ("hub.extra", "y"),
    ]);
    assert_eq!(WebHookQuery::from_segments(&args, "secret").unwrap().hub_challenge, "c");
}

#[test]
fn handshake_with_a_wrong_token_fails_verification() {
    let args = segments(&[
        ("hub.mode", "subscribe"),
        ("hub.challenge", "c"),
        ("hub.verify_token", "guess"),
    ]);
    match WebHookQuery::from_segments(&args, "secret") {
        Err(WebHookError::VerificationFailed(reason)) => assert_eq!(reason, "Token mismatch"),
        _ => panic!("a failed verification"),
    }
}

#[test]
fn handshake_with_a_wrong_mode_fails_verification() {
    let args = segments(&[
        ("hub.mode", "unsubscribe"),
        ("hub.challenge", "c"),
        ("hub.verify_token", "secret"),
    ]);
    assert!(matches!(
        WebHookQuery::from_segments(&args, "secret"),
        Err(WebHookError::VerificationFailed("Token mismatch"))
    ));
}

#[test]
fn handshake_without_all_arguments_is_not_enough() {
    let all = [("hub.mode", "subscribe"), ("hub.challenge", "c"), ("hub.verify_token", "secret")];
    for missing in 0..3 {
        let pairs: Vec<(&str, &str)> =
            all.iter().enumerate().filter(|(i, _)| *i != missing).map(|(_, p)| *p).collect();
        assert!(matches!(
            WebHookQuery::from_segments(&segments(&pairs), "secret"),
            Err(WebHookError::ArgsNotEnough)
        ));
    }
    assert!(matches!(
        WebHookQuery::from_segments(&Vec::new(), "secret"),
        Err(WebHookError::ArgsNotEnough)
    ));
}

#[test]
fn handshake_takes_the_last_value_of_a_repeated_argument() {
    let args = segments(&[
        ("hub.mode", "subscribe"),
        ("hub.challenge", "first"),
        ("hub.verify_token", "guess"),
        ("hub.verify_token", "secret"),
        ("hub.challenge", "second"),
    ]);
    assert_eq!(WebHookQuery::from_segments(&args, "secret").unwrap().hub_challenge, "second");
    let args = segments(&[
        ("hub.mode", "subscribe"),
        ("hub.challenge", "c"),
        ("hub.verify_token", "secret"),
        ("hub.verify_token", "guess"),
    ]);
    assert!(matches!(
        WebHookQuery::from_segments(&args, "secret"),
        Err(WebHookError::VerificationFailed(_))
    ));
}

#[test]
fn request_keeps_its_host() {
    assert_eq!(RussengerRequest::from_host(Some("example.com")).unwrap().host, "example.com");
    assert!(RussengerRequest::from_host(None).is_err());
}
