use hmac::{Hmac, Mac};
use sha2::Sha256;
use webhook::config::{Config, Service, ServiceMap};
use webhook::headers::{header_value_str, Headers};
use webhook::signature::signature_matches;
use webhook::text::decimal_string;

fn sign(secret: &str, payload: &[u8]) -> String {
    let mut mac = Hmac::<Sha256>::new_from_slice(secret.as_bytes()).unwrap();
    mac.update(payload);
    format!("sha256={}", hex::encode(mac.finalize().into_bytes()))
}

fn cmd(s: &str) -> Option<String> {
    Some(s.to_string())
}

fn service(stop: Option<String>, pre: Option<String>, start: Option<String>, post: Option<String>) -> Service {
    Service { pre_start_command: pre, start_command: start, post_start_command: post, stop_command: stop }
}

#[test]
fn services_are_kept_in_ascending_order_of_names() {
    let mut m = ServiceMap::new();
    m.insert("keycloak".to_string(), Service::empty());
    m.insert("caddy".to_string(), service(cmd("a"), None, None, None));
    m.insert("nextcloud".to_string(), Service::empty());
    m.insert("Zeta".to_string(), Service::empty());
    assert_eq!(m.len(), 4);
    let names: Vec<String> = (0..m.len()).map(|i| m.entry(i).0.clone()).collect();
    assert_eq!(names, vec!["Zeta", "caddy", "keycloak", "nextcloud"]);
}

#[test]
fn lookup_after_insert_gives_the_last_inserted_service() {
    let mut m = ServiceMap::new();
    m.insert("a".to_string(), service(cmd("one"), None, None, None));
    m.insert("b".to_string(), Service::empty());
    m.insert("a".to_string(), service(cmd("two"), None, None, None));
    assert_eq!(m.len(), 2);
    assert_eq!(m.get("a").unwrap().stop_command.as_deref(), Some("two"));
    assert!(m.get("b").unwrap().stop_command.is_none());
    assert!(m.get("c").is_none());
    assert!(m.contains_key("b"));
    assert!(!m.contains_key("B"));
    assert!(!m.contains_key(""));
}

#[test]
fn header_names_ignore_case_and_the_first_value_wins() {
    let mut h = Headers::new();
    h.append("x-github-event".to_string(), b"push".to_vec());
    h.append("X-GitHub-Event".to_string(), b"ping".to_vec());
    assert_eq!(h.get("X-GITHUB-EVENT"), Some(&b"push"[..]));
    assert_eq!(h.get("x-github-delivery"), None);
    assert_eq!(h.get_str("x-github-event"), Some(Some("push".to_string())));
}

#[test]
fn header_text_accepts_visible_ascii_and_tabs_only() {
    assert_eq!(header_value_str(b"abc\tdef ~"), Some("abc\tdef ~".to_string()));
    assert_eq!(header_value_str(b""), Some(String::new()));
    assert_eq!(header_value_str(b"caf\xc3\xa9"), None);
    assert_eq!(header_value_str(b"a\nb"), None);
    assert_eq!(header_value_str(b"a\x7fb"), None);
}

#[test]
fn a_signature_of_the_payload_with_the_secret_is_accepted() {
    let payload = br#"{"ref":"refs/heads/main"}"#;
    let mut h = Headers::new();
    h.append("x-hub-signature-256".to_string(), sign("s3cret", payload).into_bytes());
    assert!(signature_matches(&h, payload, "s3cret"));
    assert!(!signature_matches(&h, payload, "other"));
    assert!(!signature_matches(&h, b"tampered", "s3cret"));
}

#[test]
fn upper_case_hex_digits_are_accepted() {
    let payload = b"hello";
    let sig = sign("k", payload).to_uppercase().replacen("SHA256=", "sha256=", 1);
    let mut h = Headers::new();
    h.append("X-Hub-Signature-256".to_string(), sig.into_bytes());
    assert!(signature_matches(&h, payload, "k"));
}

#[test]
fn badly_formatted_signatures_are_refused() {
    let payload = b"hello";
    let good = sign("k", payload);
    let cases: Vec<Vec<u8>> = vec![
        good.replacen("sha256=", "sha1=", 1).into_bytes(),
        good.replacen("sha256=", "", 1).into_bytes(),
        format!("{}0", good).into_bytes(),
        format!("{}00", good).into_bytes(),
        good[..good.len() - 2].as_bytes().to_vec(),
        good.replacen('a', "g", 1).into_bytes(),
        b"sha256=".to_vec(),
        b"".to_vec(),
    ];
    for c in cases {
        let mut h = Headers::new();
        h.append("x-hub-signature-256".to_string(), c);
        assert!(!signature_matches(&h, payload, "k"));
    }
    assert!(!signature_matches(&Headers::new(), payload, "k"));
}

#[test]
fn the_hmac_of_known_values_is_checked() {
    // RFC 4231, test case 2.
    let mut h = Headers::new();
    h.append(
        "x-hub-signature-256".to_string(),
        b"sha256=5bdcc146bf60754e6a042426089575c75a003f089d2739839dec58b964ec3843".to_vec(),
    );
    assert!(signature_matches(&h, b"what do ya want for nothing?", "Jefe"));
}

#[test]
fn decimal_strings_match_to_string() {
    for n in [0u64, 7, 9, 10, 11, 99, 100, 4096, 1234567890, u32::MAX as u64, u64::MAX] {
        assert_eq!(decimal_string(n), n.to_string());
    }
}

#[test]
fn a_configuration_holds_its_secret_and_services() {
    let mut services = ServiceMap::new();
    services.insert("web".to_string(), Service::empty());
    let c = Config {
        secret: "x".to_string(),
        default: Service::empty(),
        services,
        github_access_token: String::new(),
        github_assignees: vec![],
    };
    assert!(c.services.contains_key("web"));
}
