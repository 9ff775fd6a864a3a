use regex::Regex;
use webhook::failure::FrameworkError;
use webhook::role::error::Error;
use webhook::role::github::event::{Action, Package, Payload, Push, Repository};
use webhook::role::github::issues::OpenIssueBody;
use webhook::role::github::{
    closing_update, fix_origin, fixed_comment, issue_comments_url, issue_is_fixed, issue_origin, issue_url,
    issues_to_close, issues_url, open_issue_body,
};

fn repository(full: &str) -> Repository {
    Repository {
        full_name: full.to_string(),
        html_url: format!("https://github.com/{full}"),
        default_branch: "main".to_string(),
    }
}

fn push(full: &str, after: &str, commits: usize) -> Payload {
    Payload::Push(Push {
        repository: repository(full),
        ref_: "refs/heads/main".to_string(),
        after: after.to_string(),
        commits: (0..commits).map(|i| format!("c{i}")).collect(),
    })
}

fn package(full: &str, updated_at: Option<&str>) -> Payload {
    Payload::Action(Action::Published {
        package: Package {
            name: "site".to_string(),
            html_url: "https://github.com/pkg/site".to_string(),
            updated_at: updated_at.map(|s| s.to_string()),
        },
        repository: repository(full),
    })
}

fn issue(number: u32, title: &str, labels: &[&str]) -> OpenIssueBody {
    OpenIssueBody { number, title: title.to_string(), labels: labels.iter().map(|l| l.to_string()).collect() }
}

fn with_regex(title: &str) -> Option<(String, String)> {
    let rx = Regex::new(r".* from '([^'\/]*)\/([^'\/]*)'.*").unwrap();
    let c = rx.captures(title)?;
    Some((c.get(1)?.as_str().to_string(), c.get(2)?.as_str().to_string()))
}

#[test]
fn an_issue_for_a_failed_push_deployment() {
    let body = open_issue_body(
        "line 1\nline 2",
        Some("keycloak"),
        &Ok(push("clicepfl/keycloak", "a1b2c3d4e5f6", 3)),
        &vec!["alice".to_string(), "bob".to_string()],
    )
    .unwrap();
    assert_eq!(body.title, "Deployment failed for keycloak (a1b2c3) from 'clicepfl/keycloak'");
    assert_eq!(
        body.body,
        "Deployment for keycloak failed.\nTriggered by the push of 3 commits on https://github.com/clicepfl/keycloak. HEAD after the push is a1b2c3d4e5f6.\n\nLogs:\n```\nline 1\nline 2\n```\n"
    );
    assert_eq!(body.assignees, vec!["alice", "bob"]);
    assert_eq!(body.labels, vec!["build failed"]);
}

#[test]
fn an_issue_for_a_failed_package_deployment() {
    let body = open_issue_body("log", None, &Ok(package("clicepfl/site", Some("2024-05-01"))), &vec![]).unwrap();
    assert_eq!(body.title, "Deployment failed for package from 'clicepfl/site'");
    assert_eq!(
        body.body,
        "Deployment for all services failed.\nTriggered by the publication of [site](https://github.com/pkg/site) at 2024-05-01.\n\nLogs:\n```\nlog\n```\n"
    );
    let body = open_issue_body("", None, &Ok(package("a/b", None)), &vec![]).unwrap();
    assert!(body.body.contains(") at None.\n"));
    assert!(body.assignees.is_empty());
}

#[test]
fn no_issue_when_the_delivery_could_not_be_read() {
    assert!(open_issue_body("log", None, &Err(Error::BadRequest), &vec![]).is_none());
}

#[test]
fn the_origin_of_a_fix() {
    let (source, repo) = fix_origin(&Ok(push("clicepfl/infra", "abcdef123", 1)));
    assert_eq!(source, "commit abcdef");
    assert_eq!(repo, "clicepfl/infra");
    let (source, repo) = fix_origin(&Ok(package("clicepfl/site", Some("now"))));
    assert_eq!(source, "package site (now)");
    assert_eq!(repo, "clicepfl/site");
    let (source, _) = fix_origin(&Ok(package("clicepfl/site", None)));
    assert_eq!(source, "package site ()");
    let (source, repo) = fix_origin(&Err(Error::Actix(FrameworkError { status: 400, message: String::new() })));
    assert_eq!(source, "<unable to parse hook payload>");
    assert_eq!(repo, "");
}

#[test]
fn issue_titles_are_read_as_the_pattern_reads_them() {
    let titles = [
        "Deployment failed for keycloak (a1b2c3) from 'clicepfl/keycloak'",
        "Deployment failed for package from 'clicepfl/site'",
        "Deployment failed for x from 'a/b' and then from 'c/d' too",
        "first from 'a/b'\nsecond from 'c/d'",
        "no origin\nsecond from 'c/d' trailing",
        " from 'a/b'",
        "from 'a/b'",
        " from 'a/b",
        " from 'a'b/c'",
        " from 'a/b/c'",
        " from 'x\ny/z'",
        " from '/'",
        " from 'a/'",
        "x from 'a/b'\n from 'c/d'",
        "\n from 'a/b' from 'c/d'\n from 'e/f'",
        "",
        " from ' from 'a/b''",
        "caf\u{e9} from '\u{e9}t\u{e9}/\u{fc}ber'",
    ];
    for t in titles {
        assert_eq!(issue_origin(t), with_regex(t), "title {t:?}");
    }
}

#[test]
fn an_issue_opened_for_a_push_is_closed_by_a_fix_from_the_same_repository() {
    let body = open_issue_body("", Some("web"), &Ok(push("org/web", "123456789", 1)), &vec![]).unwrap();
    let opened = issue(7, &body.title, &["build failed"]);
    let (_, fix_repo) = fix_origin(&Ok(push("org/web", "987654321", 1)));
    assert!(issue_is_fixed(&opened, Some("web"), &fix_repo));
    assert!(!issue_is_fixed(&opened, Some("web"), "org/other"));
    assert!(issue_is_fixed(&opened, None, "org/other"));
}

#[test]
fn an_issue_whose_commit_holds_a_line_break_is_still_closed_by_its_repository() {
    for service in ["web", "web from 'org/web'"] {
        let body = open_issue_body("", Some(service), &Ok(push("org/web", "12\n4567", 1)), &vec![]).unwrap();
        assert_eq!(body.title, format!("Deployment failed for {service} (12\n456) from 'org/web'"));
        assert_eq!(issue_origin(&body.title), Some(("org".to_string(), "web".to_string())));
        assert_eq!(issue_origin(&body.title), with_regex(&body.title));
        let opened = issue(8, &body.title, &["build failed"]);
        assert!(issue_is_fixed(&opened, Some("web"), "org/web"));
    }
    // An origin naming another repository on an earlier line is the one read.
    let body = open_issue_body("", Some("web from 'x/y'"), &Ok(push("org/web", "12\n4567", 1)), &vec![]).unwrap();
    assert_eq!(issue_origin(&body.title), Some(("x".to_string(), "y".to_string())));
    assert_eq!(issue_origin(&body.title), with_regex(&body.title));
}

#[test]
fn which_issues_a_successful_redeployment_closes() {
    let issues = vec![
        issue(1, "Deployment failed for web (abcdef) from 'clicepfl/web'", &["build failed"]),
        issue(2, "Deployment failed for web (abcdef) from 'clicepfl/web'", &["bug"]),
        issue(3, "Deployment failed for package from 'other/web'", &["build failed", "x"]),
        issue(4, "Something unrelated", &["build failed"]),
        issue(5, "Deployment failed for package from 'clicepfl/api'", &["build failed"]),
    ];
    let closed: Vec<u32> = issues_to_close(issues.clone(), Some("web"), "clicepfl/web").iter().map(|i| i.number).collect();
    assert_eq!(closed, vec![1]);
    let closed: Vec<u32> = issues_to_close(issues.clone(), None, "clicepfl/web").iter().map(|i| i.number).collect();
    assert_eq!(closed, vec![1, 3, 4, 5]);
    // Redeployment by hand: issues about clicepfl's repository of the service.
    let closed: Vec<u32> = issues_to_close(issues.clone(), Some("api"), "").iter().map(|i| i.number).collect();
    assert_eq!(closed, vec![5]);
    let closed: Vec<u32> = issues_to_close(issues, Some("web"), "").iter().map(|i| i.number).collect();
    assert_eq!(closed, vec![1]);
}

#[test]
fn issue_addresses_and_updates() {
    assert_eq!(issues_url(), "https://api.github.com/repos/clicepfl/infra/issues");
    assert_eq!(issue_url(42), "https://api.github.com/repos/clicepfl/infra/issues/42");
    assert_eq!(issue_comments_url(0), "https://api.github.com/repos/clicepfl/infra/issues/0/comments");
    assert_eq!(fixed_comment("commit abcdef").body, "Fixed by commit abcdef");
    assert_eq!(closing_update().state, "closed");
}

#[test]
fn issue_titles_built_from_pieces_are_read_as_the_pattern_reads_them() {
    let pieces = [" from '", "a", "/", "'", "\n", "b "];
    let mut titles: Vec<String> = vec![String::new()];
    let mut frontier: Vec<String> = vec![String::new()];
    for _ in 0..5 {
        let mut next = vec![];
        for t in &frontier {
            for p in pieces {
                next.push(format!("{t}{p}"));
            }
        }
        titles.extend(next.iter().cloned());
        frontier = next;
    }
    for t in &titles {
        assert_eq!(issue_origin(t), with_regex(t), "title {t:?}");
    }
}
