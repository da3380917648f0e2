use automerge_bot::webhook::check_run::check_run_pull_requests;
use automerge_bot::webhook::{verify_webhook_payload, webhook_response, WebhookResponse};

const SECRET: &str = "It's a Secret to Everybody";
const BODY: &[u8] = b"Hello, World!";
const SIGNATURE: &str = "sha256=757107ea0eb2509fc211221cce984b8a37570b6d7586c22c46f4379c8b043e17";

#[test]
fn github_example_signature_is_accepted() {
    assert!(verify_webhook_payload(BODY, Some(SIGNATURE.as_bytes()), SECRET));
}

#[test]
fn missing_signature_is_refused() {
    assert!(!verify_webhook_payload(BODY, None, SECRET));
}

#[test]
fn signature_for_other_body_or_secret_is_refused() {
    assert!(!verify_webhook_payload(b"Hello, World?", Some(SIGNATURE.as_bytes()), SECRET));
    assert!(!verify_webhook_payload(BODY, Some(SIGNATURE.as_bytes()), "another secret"));
    let mut changed = SIGNATURE.to_string();
    changed.replace_range(70..71, "6");
    assert!(!verify_webhook_payload(BODY, Some(changed.as_bytes()), SECRET));
}

#[test]
fn signature_must_be_prefixed_lowercase_hex_of_full_length() {
    let hex = &SIGNATURE[7..];
    let sha1 = format!("sha1={hex}");
    assert!(!verify_webhook_payload(BODY, Some(sha1.as_bytes()), SECRET));
    assert!(!verify_webhook_payload(BODY, Some(hex.as_bytes()), SECRET));
    let upper = format!("sha256={}", hex.to_uppercase());
    assert!(!verify_webhook_payload(BODY, Some(upper.as_bytes()), SECRET));
    let short = &SIGNATURE[..70];
    assert!(!verify_webhook_payload(BODY, Some(short.as_bytes()), SECRET));
    let long = format!("{SIGNATURE}0");
    assert!(!verify_webhook_payload(BODY, Some(long.as_bytes()), SECRET));
    let not_hex = format!("sha256=g{}", &hex[1..]);
    assert!(!verify_webhook_payload(BODY, Some(not_hex.as_bytes()), SECRET));
}

#[test]
fn empty_body_and_secret_are_signed_too() {
    // HMAC-SHA256 with an empty key over an empty message
    let sig = "sha256=b613679a0814d9ec772f95d778c35fc5ff1697c493715653c6c712144292c5ad";
    assert!(verify_webhook_payload(b"", Some(sig.as_bytes()), ""));
}

#[test]
fn webhook_response_order_of_checks() {
    assert_eq!(webhook_response(false, false, false), WebhookResponse::Forbidden);
    assert_eq!(webhook_response(false, true, true), WebhookResponse::Forbidden);
    assert_eq!(webhook_response(true, false, true), WebhookResponse::BadRequest);
    assert_eq!(webhook_response(true, true, false), WebhookResponse::BadRequest);
    assert_eq!(webhook_response(true, true, true), WebhookResponse::Accepted);
}

#[test]
fn check_run_names_each_pull_request_of_the_repository() {
    let ids = check_run_pull_requests("R_1", &vec![4, 9, 4]);
    assert_eq!(ids.len(), 3);
    assert_eq!(ids[0].repository_id, "R_1");
    assert_eq!(ids[0].pull_request_number, 4);
    assert_eq!(ids[1].pull_request_number, 9);
    assert_eq!(ids[2].repository_id, "R_1");
    assert!(ids[0].same(&ids[2]));
    assert!(!ids[0].same(&ids[1]));
    assert!(check_run_pull_requests("R_1", &vec![]).is_empty());
}
