use hmac::{Hmac, Mac};
use sha2::Sha256;
use webhook::config::{Config, Service, ServiceMap};
use webhook::failure::FrameworkError;
use webhook::headers::Headers;
use webhook::role::error::Error;
use webhook::role::github::event::{Action, Package, Payload, Push, Repository};
use webhook::role::log::{start_capture, stop_capture, LogWriter};
use webhook::role::restart::{restart, RestartAction};
use webhook::role::validation::{
    check_redelivery, event_kind, validate_call, validate_event, validate_service, EventKind, WebhookState,
};

fn sign(secret: &str, payload: &[u8]) -> Vec<u8> {
    let mut mac = Hmac::<Sha256>::new_from_slice(secret.as_bytes()).unwrap();
    mac.update(payload);
    format!("sha256={}", hex::encode(mac.finalize().into_bytes())).into_bytes()
}

fn cmd(s: &str) -> Option<String> {
    Some(s.to_string())
}

fn config() -> Config {
    let mut services = ServiceMap::new();
    services.insert("caddy".to_string(), Service::empty());
    services.insert(
        "keycloak".to_string(),
        Service {
            pre_start_command: cmd("pre"),
            start_command: cmd("start"),
            post_start_command: None,
            stop_command: cmd("stop"),
        },
    );
    Config {
        secret: "hmac-secret".to_string(),
        default: Service {
            pre_start_command: None,
            start_command: cmd("echo $SERVICE"),
            post_start_command: cmd("post"),
            stop_command: None,
        },
        services,
        github_access_token: "token".to_string(),
        github_assignees: vec!["alice".to_string()],
    }
}

fn repository() -> Repository {
    Repository {
        full_name: "clicepfl/infra".to_string(),
        html_url: "https://github.com/clicepfl/infra".to_string(),
        default_branch: "main".to_string(),
    }
}

fn push(r: &str) -> Payload {
    Payload::Push(Push {
        repository: repository(),
        ref_: r.to_string(),
        after: "0123456789abcdef".to_string(),
        commits: vec!["a".to_string(), "b".to_string()],
    })
}

fn package() -> Payload {
    Payload::Action(Action::Published {
        package: Package {
            name: "site".to_string(),
            html_url: "https://github.com/orgs/clicepfl/packages/site".to_string(),
            updated_at: Some("2024-05-01T10:00:00Z".to_string()),
        },
        repository: repository(),
    })
}

fn headers(delivery: Option<&[u8]>, payload: &[u8], secret: &str) -> Headers {
    let mut h = Headers::new();
    if let Some(d) = delivery {
        h.append("x-github-delivery".to_string(), d.to_vec());
    }
    h.append("x-hub-signature-256".to_string(), sign(secret, payload));
    h.append("x-github-event".to_string(), b"push".to_vec());
    h
}

#[test]
fn a_signed_push_to_the_default_branch_triggers_a_redeploy() {
    let payload = b"{}";
    let mut state = WebhookState::new();
    let h = headers(Some(b"id-1"), payload, "hmac-secret");
    let r = validate_call(&h, payload, &mut state, None, &config(), Ok(push("refs/heads/main")));
    assert!(matches!(r, Ok(true)));
    assert_eq!(state.processed_deliveries, vec!["id-1".to_string()]);
}

#[test]
fn a_push_to_another_branch_is_acknowledged_without_redeploy() {
    let payload = b"{}";
    let mut state = WebhookState::new();
    let h = headers(Some(b"id-2"), payload, "hmac-secret");
    let r = validate_call(&h, payload, &mut state, Some("caddy"), &config(), Ok(push("refs/heads/dev")));
    assert!(matches!(r, Ok(false)));
    assert!(matches!(validate_event(Ok(push("refs/heads/main/x"))), Ok(false)));
    assert!(matches!(validate_event(Ok(push("refs/heads/main"))), Ok(true)));
}

#[test]
fn a_published_package_triggers_a_redeploy() {
    assert!(matches!(validate_event(Ok(package())), Ok(true)));
}

#[test]
fn a_redelivery_is_ignored() {
    let payload = b"{}";
    let mut state = WebhookState::new();
    let h = headers(Some(b"same"), payload, "hmac-secret");
    let first = validate_call(&h, payload, &mut state, None, &config(), Ok(push("refs/heads/main")));
    assert!(matches!(first, Ok(true)));
    let second = validate_call(&h, payload, &mut state, None, &config(), Ok(push("refs/heads/main")));
    assert!(matches!(second, Ok(false)));
    assert_eq!(state.processed_deliveries.len(), 1);
}

#[test]
fn redelivery_checks_remember_each_delivery_once() {
    let mut state = WebhookState::default();
    let mut h1 = Headers::new();
    h1.append("X-GitHub-Delivery".to_string(), b"a".to_vec());
    let mut h2 = Headers::new();
    h2.append("X-GitHub-Delivery".to_string(), b"b".to_vec());
    assert!(matches!(check_redelivery(&h1, &mut state), Ok(true)));
    assert!(matches!(check_redelivery(&h2, &mut state), Ok(true)));
    assert!(matches!(check_redelivery(&h1, &mut state), Ok(false)));
    assert_eq!(state.processed_deliveries, vec!["a".to_string(), "b".to_string()]);
    assert!(state.has_seen("b"));
    assert!(!state.has_seen("c"));
}

#[test]
fn a_delivery_without_identifier_is_a_bad_request() {
    let payload = b"{}";
    let mut state = WebhookState::new();
    let h = headers(None, payload, "hmac-secret");
    let r = validate_call(&h, payload, &mut state, None, &config(), Ok(push("refs/heads/main")));
    assert!(matches!(r, Err(Error::BadRequest)));
    let h = headers(Some(b"caf\xc3\xa9"), payload, "hmac-secret");
    let r = validate_call(&h, payload, &mut state, None, &config(), Ok(push("refs/heads/main")));
    assert!(matches!(r, Err(Error::BadRequest)));
    assert!(state.processed_deliveries.is_empty());
}

#[test]
fn an_unknown_service_is_refused_before_anything_else() {
    let payload = b"{}";
    let mut state = WebhookState::new();
    let h = headers(Some(b"x"), payload, "wrong");
    let r = validate_call(&h, payload, &mut state, Some("nextcloud"), &config(), Ok(push("refs/heads/main")));
    assert!(matches!(r, Err(Error::InvalidService)));
    assert!(state.processed_deliveries.is_empty());
    assert!(matches!(validate_service("caddy", &config()), Ok(())));
    assert!(matches!(validate_service("Caddy", &config()), Err(Error::InvalidService)));
}

#[test]
fn a_wrong_signature_is_refused_but_the_delivery_is_remembered() {
    let payload = b"{}";
    let mut state = WebhookState::new();
    let h = headers(Some(b"x"), payload, "wrong");
    let r = validate_call(&h, payload, &mut state, None, &config(), Ok(push("refs/heads/main")));
    assert!(matches!(r, Err(Error::InvalidSignature)));
    assert_eq!(state.processed_deliveries.len(), 1);
}

#[test]
fn an_unreadable_payload_gives_its_error() {
    let payload = b"{}";
    let mut state = WebhookState::new();
    let h = headers(Some(b"x"), payload, "hmac-secret");
    let err = Error::Actix(FrameworkError { status: 400, message: "bad json".to_string() });
    let r = validate_call(&h, payload, &mut state, None, &config(), Err(err));
    match r {
        Err(Error::Actix(f)) => {
            assert_eq!(f.status, 400);
            assert_eq!(f.message, "bad json");
        }
        _ => panic!("expected the parse error"),
    }
    let r = validate_call(&headers(Some(b"y"), payload, "hmac-secret"), payload, &mut state, None, &config(), Err(Error::ForbiddenEvent));
    assert!(matches!(r, Err(Error::ForbiddenEvent)));
}

#[test]
fn the_event_header_names_the_payload_kind() {
    let mut h = Headers::new();
    assert!(matches!(event_kind(&h), Err(Error::BadRequest)));
    h.append("x-github-event".to_string(), b"package".to_vec());
    assert!(matches!(event_kind(&h), Ok(EventKind::Package)));
    let mut h = Headers::new();
    h.append("x-github-event".to_string(), b"push".to_vec());
    assert!(matches!(event_kind(&h), Ok(EventKind::Push)));
    let mut h = Headers::new();
    h.append("x-github-event".to_string(), b"ping".to_vec());
    assert!(matches!(event_kind(&h), Err(Error::ForbiddenEvent)));
    let mut h = Headers::new();
    h.append("x-github-event".to_string(), b"Push".to_vec());
    assert!(matches!(event_kind(&h), Err(Error::ForbiddenEvent)));
}

#[test]
fn errors_are_answered_with_their_status_and_text() {
    let cases = [
        (Error::BadRequest, 400, "Bad request"),
        (Error::InvalidSignature, 403, "Invalid Signature"),
        (Error::InvalidService, 400, "Invalid service"),
        (Error::ForbiddenEvent, 400, "Event is not allowed"),
        (Error::Actix(FrameworkError { status: 500, message: "boom".to_string() }), 500, "boom"),
    ];
    for (e, status, text) in cases {
        assert_eq!(e.status_code(), status);
        assert_eq!(e.message(), text);
    }
}

fn run(service_name: &str, service: &Service, default: &Service, failing: Option<&str>) -> (Vec<String>, bool) {
    let mut r = restart(service_name, service, default);
    assert_eq!(r.name(), service_name);
    let mut ran = vec![];
    loop {
        match r.advance() {
            RestartAction::Run(c) => {
                let ok = Some(c.as_str()) != failing;
                ran.push(c);
                r.report(ok);
            }
            RestartAction::Finished(ok) => return (ran, ok),
        }
    }
}

#[test]
fn a_restart_runs_the_commands_in_order_with_defaults() {
    let c = config();
    let keycloak = c.services.get("keycloak").unwrap();
    let (ran, ok) = run("keycloak", keycloak, &c.default, None);
    assert_eq!(ran, vec!["stop", "pre", "start", "post"]);
    assert!(ok);
    let caddy = c.services.get("caddy").unwrap();
    let (ran, ok) = run("caddy", caddy, &c.default, None);
    assert_eq!(ran, vec!["echo $SERVICE", "post"]);
    assert!(ok);
}

#[test]
fn a_restart_stops_at_the_first_failure() {
    let c = config();
    let keycloak = c.services.get("keycloak").unwrap();
    let (ran, ok) = run("keycloak", keycloak, &c.default, Some("pre"));
    assert_eq!(ran, vec!["stop", "pre"]);
    assert!(!ok);
}

#[test]
fn a_restart_without_commands_succeeds_at_once() {
    let (ran, ok) = run("x", &Service::empty(), &Service::empty(), None);
    assert!(ran.is_empty());
    assert!(ok);
}

#[test]
fn the_log_is_captured_between_start_and_stop() {
    let mut w = LogWriter::new();
    assert!(!w.is_capturing());
    assert!(!w.write(b"before\n"));
    start_capture(&mut w);
    assert!(w.is_capturing());
    assert!(w.write(b"one\n"));
    assert!(w.write("d\u{e9}j\u{e0}\n".as_bytes()));
    assert_eq!(stop_capture(&mut w), "one\nd\u{e9}j\u{e0}\n");
    assert!(!w.is_capturing());
    assert_eq!(stop_capture(&mut w), "");
    assert!(!w.write(b"after\n"));
}

#[test]
fn starting_a_capture_again_drops_what_was_captured() {
    let mut w = LogWriter::new();
    start_capture(&mut w);
    w.write(b"old");
    start_capture(&mut w);
    w.write(b"new");
    assert_eq!(stop_capture(&mut w), "new");
}

use webhook::role::github::issues::OpenIssueBody;
use webhook::role::github::{IssueClosing, IssueRequest};
use webhook::role::routes::{all, one, DeployStep, FollowUp};

fn drive(mut plan: webhook::role::routes::Redeployment, failing: &[&str]) -> (Vec<String>, FollowUp) {
    let mut done = vec![];
    loop {
        match plan.next() {
            DeployStep::Restart(n) => {
                let ok = !failing.contains(&n.as_str());
                done.push(n);
                plan.report(ok);
            }
            DeployStep::Finish(f) => return (done, f),
        }
    }
}

#[test]
fn a_global_redeployment_goes_through_every_service_in_name_order() {
    let (done, f) = drive(all(&config()), &[]);
    assert_eq!(done, vec!["caddy", "keycloak"]);
    assert!(matches!(f, FollowUp::CloseIssues));
}

#[test]
fn a_global_redeployment_goes_on_after_a_failure_and_opens_an_issue() {
    let (done, f) = drive(all(&config()), &["caddy"]);
    assert_eq!(done, vec!["caddy", "keycloak"]);
    assert!(matches!(f, FollowUp::OpenIssue));
}

#[test]
fn a_single_redeployment_redeploys_only_a_known_service() {
    let (done, f) = drive(one(&config(), "keycloak"), &["keycloak"]);
    assert_eq!(done, vec!["keycloak"]);
    assert!(matches!(f, FollowUp::OpenIssue));
    let (done, f) = drive(one(&config(), "nextcloud"), &[]);
    assert!(done.is_empty());
    assert!(matches!(f, FollowUp::CloseIssues));
}

#[test]
fn fixed_issues_are_commented_then_closed_and_failures_are_skipped() {
    let issues: Vec<OpenIssueBody> = [3u32, 5, 8]
        .iter()
        .map(|n| OpenIssueBody { number: *n, title: String::new(), labels: vec![] })
        .collect();
    let mut closing = IssueClosing::new(&issues);
    let mut log = vec![];
    loop {
        let req = closing.request();
        let ok = match req {
            IssueRequest::Comment(n) => {
                log.push(format!("comment {n}"));
                n != 5
            }
            IssueRequest::Close(n) => {
                log.push(format!("close {n}"));
                n != 8
            }
            IssueRequest::Done => break,
        };
        closing.report(ok);
    }
    assert_eq!(log, vec!["comment 3", "close 3", "comment 5", "comment 8", "close 8"]);
}

#[test]
fn a_delivery_redeploys_once_even_with_other_requests_in_between() {
    let payload = b"{}";
    let mut state = WebhookState::new();
    let c = config();
    let first = validate_call(&headers(Some(b"d1"), payload, "hmac-secret"), payload, &mut state, None, &c, Ok(push("refs/heads/main")));
    assert!(matches!(first, Ok(true)));
    let other = validate_call(&headers(Some(b"d2"), payload, "hmac-secret"), payload, &mut state, None, &c, Ok(push("refs/heads/main")));
    assert!(matches!(other, Ok(true)));
    let unknown = validate_call(&headers(Some(b"d3"), payload, "hmac-secret"), payload, &mut state, Some("x"), &c, Ok(push("refs/heads/main")));
    assert!(matches!(unknown, Err(Error::InvalidService)));
    let again = validate_call(&headers(Some(b"d1"), payload, "hmac-secret"), payload, &mut state, Some("caddy"), &c, Ok(push("refs/heads/main")));
    assert!(matches!(again, Ok(false)));
    assert_eq!(state.processed_deliveries, vec!["d1".to_string(), "d2".to_string()]);
}
