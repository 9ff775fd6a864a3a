use hmac::{Hmac, Mac};
use sha2::Sha256;
use webhook::config::{Config, Service, ServiceMap};
use webhook::failure::FrameworkError;
use webhook::headers::Headers;
use webhook::standalone::error::Error;
use webhook::standalone::models::{PushPayload, User};
use webhook::standalone::routes::{generic, targeted};
use webhook::standalone::validation::{validate_call, validate_event, validate_signature};

fn cmd(s: &str) -> Option<String> {
    Some(s.to_string())
}

fn config() -> Config {
    let mut services = ServiceMap::new();
    services.insert(
        "b".to_string(),
        Service { pre_start_command: cmd("b-pre"), start_command: cmd("b-start"), post_start_command: cmd("b-post"), stop_command: cmd("b-stop") },
    );
    services.insert(
        "a".to_string(),
        Service { pre_start_command: None, start_command: None, post_start_command: cmd("a-post"), stop_command: cmd("a-stop") },
    );
    Config {
        secret: "s".to_string(),
        default: Service { pre_start_command: cmd("d-pre"), start_command: cmd("generic"), post_start_command: None, stop_command: None },
        services,
        github_access_token: String::new(),
        github_assignees: vec![],
    }
}

fn signed(payload: &[u8], secret: &str, event: Option<&[u8]>) -> Headers {
    let mut mac = Hmac::<Sha256>::new_from_slice(secret.as_bytes()).unwrap();
    mac.update(payload);
    let mut h = Headers::new();
    h.append("x-hub-signature-256".to_string(), format!("sha256={}", hex::encode(mac.finalize().into_bytes())).into_bytes());
    if let Some(e) = event {
        h.append("x-github-event".to_string(), e.to_vec());
    }
    h
}

#[test]
fn a_signed_push_triggers_a_redeploy_and_a_ping_does_not() {
    let p = b"payload";
    assert!(matches!(validate_call(&signed(p, "s", Some(b"push")), p, &config()), Ok(true)));
    assert!(matches!(validate_call(&signed(p, "s", Some(b"ping")), p, &config()), Ok(false)));
    assert!(matches!(validate_call(&signed(p, "s", None), p, &config()), Ok(false)));
    assert!(matches!(validate_call(&signed(p, "t", Some(b"push")), p, &config()), Err(Error::InvalidSignature)));
    assert!(matches!(validate_signature(&signed(p, "s", None), p, &config()), Ok(())));
    assert!(matches!(validate_event(&signed(p, "s", Some(b"pings"))), Ok(true)));
}

#[test]
fn a_global_restart_runs_every_service_then_the_default_then_post_starts() {
    let plan = generic(&config());
    assert_eq!(plan, vec!["a-stop", "b-stop", "b-pre", "b-start", "generic", "a-post", "b-post"]);
}

#[test]
fn a_targeted_restart_runs_the_service_commands_in_order() {
    assert_eq!(targeted(&config(), "b").unwrap(), vec!["b-stop", "b-pre", "b-start", "b-post"]);
    assert_eq!(targeted(&config(), "a").unwrap(), vec!["a-stop", "generic", "a-post"]);
    assert!(matches!(targeted(&config(), "c"), Err(Error::ServiceNotFound)));
}

#[test]
fn standalone_errors_are_answered_with_their_status_and_text() {
    assert_eq!(Error::InvalidSignature.status_code(), 403);
    assert_eq!(Error::ServiceNotFound.status_code(), 404);
    assert_eq!(Error::InvalidSignature.message(), "Invalid Signature");
    assert_eq!(Error::ServiceNotFound.message(), "Service not found");
    let e = Error::Actix(FrameworkError { status: 413, message: "too large".to_string() });
    assert_eq!(e.status_code(), 413);
    assert_eq!(e.message(), "too large");
}

#[test]
fn a_push_payload_names_its_pusher() {
    let p = PushPayload { after: "abc".to_string(), pusher: User { email: None, name: "me".to_string() }, ref_: "refs/heads/main".to_string() };
    assert_eq!(p.pusher.name, "me");
}
