//! What the webhook reads of GitHub's deliveries and writes to its issues:
//! the issue opened when a redeployment fails, and the choice of the issues
//! that a later successful redeployment closes.

pub mod event;
pub mod issues;

use vstd::prelude::*;
use vstd::string::{StringExecFns, StrSliceExecFns, StringSliceAdditionalSpecFns};
use vstd::utf8::{decode_utf8, encode_utf8, is_char_boundary};
use crate::text::{chars_of, decimal, decimal_string, same_text};
use crate::role::error::Error;
use crate::role::github::event::{Action, Payload};
use crate::role::github::issues::{IssueCommentBody, OpenIssueBody, PostIssueBody, UpdateIssueBody};

verus! {

broadcast use vstd::string::group_string_axioms;

/// What stands between the two parts of an issue title's origin.
pub open spec fn origin_marker() -> Seq<char> {
    " from '"@
}

/// A character that may stand in the owner or the name of a repository in
/// an issue title: anything but a quote or a slash.
pub open spec fn name_char(c: char) -> bool {
    c != '\'' && c != '/'
}

/// The end of the run of name characters that starts at `a`.
pub open spec fn name_end(t: Seq<char>, a: int) -> int
    decreases t.len() - a,
{
    if a < 0 || a >= t.len() {
        t.len() as int
    } else if !name_char(t[a]) {
        a
    } else {
        name_end(t, a + 1)
    }
}

/// The owner and name of a repository written ` from 'owner/name'` at `p`.
pub open spec fn origin_at(t: Seq<char>, p: int) -> Option<(Seq<char>, Seq<char>)> {
    if 0 <= p && p + 7 <= t.len() && t.subrange(p, p + 7) == origin_marker() {
        let q = name_end(t, p + 7);
        if q < t.len() && t[q] == '/' {
            let r = name_end(t, q + 1);
            if r < t.len() && t[r] == '\'' {
                Some((t.subrange(p + 7, q), t.subrange(q + 1, r)))
            } else {
                None
            }
        } else {
            None
        }
    } else {
        None
    }
}

/// No line break in `t[i..j]`.
pub open spec fn same_line(t: Seq<char>, i: int, j: int) -> bool {
    forall|k: int| i <= k < j ==> t[k] != '\n'
}

/// `p` is the origin that the pattern `.* from '([^'/]*)/([^'/]*)'.*`
/// captures in `t`: the match starts on the first line that holds an origin
/// (the leading `.*` cannot cross a line break), and the greedy `.*` takes
/// the last origin of that line.
pub open spec fn chosen_origin(t: Seq<char>, p: int) -> bool {
    &&& origin_at(t, p) is Some
    &&& forall|p2: int| p2 < p && (#[trigger] origin_at(t, p2)) is Some ==> same_line(t, p2, p)
    &&& forall|p2: int| p < p2 && (#[trigger] origin_at(t, p2)) is Some ==> !same_line(t, p, p2)
}

/// The owner and name of the repository that an issue title names.
pub open spec fn title_origin(t: Seq<char>) -> Option<(Seq<char>, Seq<char>)> {
    if exists|p: int| chosen_origin(t, p) {
        origin_at(t, choose|p: int| chosen_origin(t, p))
    } else {
        None
    }
}

/// At most one position is the chosen origin of a title.
pub proof fn lemma_chosen_origin_unique(t: Seq<char>, p1: int, p2: int)
    requires
        chosen_origin(t, p1),
        chosen_origin(t, p2),
    ensures
        p1 == p2,
{
    if p1 < p2 {
        assert(same_line(t, p1, p2));
    } else if p2 < p1 {
        assert(same_line(t, p2, p1));
    }
}

/// No line break in the text.
pub open spec fn single_line(s: Seq<char>) -> bool {
    forall|i: int| 0 <= i < s.len() ==> #[trigger] s[i] != '\n'
}

/// Text made only of characters that may stand in an owner or a
/// repository name.
pub open spec fn plain_name(s: Seq<char>) -> bool {
    forall|i: int| 0 <= i < s.len() ==> name_char(#[trigger] s[i])
}

proof fn lemma_name_end_run(t: Seq<char>, a: int, b: int)
    requires
        0 <= a <= b < t.len(),
        forall|k: int| a <= k < b ==> name_char(#[trigger] t[k]),
        !name_char(t[b]),
    ensures
        name_end(t, a) == b,
    decreases b - a,
{
    if a < b {
        lemma_name_end_run(t, a + 1, b);
    }
}

/// Every origin that starts on a line before the one of `p` names `x`.
pub open spec fn earlier_lines_name(t: Seq<char>, p: int, x: (Seq<char>, Seq<char>)) -> bool {
    forall|p2: int|
        p2 < p && (#[trigger] origin_at(t, p2)) is Some && !same_line(t, p2, p) ==> origin_at(t, p2)
            == Some(x)
}

proof fn lemma_same_line_join(t: Seq<char>, i: int, j: int, k: int)
    requires
        same_line(t, i, j),
        same_line(t, j, k),
        i <= j <= k,
    ensures
        same_line(t, i, k),
{
}

/// The first origin of a title, at or before an origin `p`.
proof fn lemma_first_origin(t: Seq<char>, p: int) -> (f: int)
    requires
        origin_at(t, p) is Some,
    ensures
        origin_at(t, f) is Some,
        f <= p,
        forall|p2: int| p2 < f ==> (#[trigger] origin_at(t, p2)) is None,
    decreases p,
{
    if exists|p2: int| p2 < p && (#[trigger] origin_at(t, p2)) is Some {
        let p2 = choose|p2: int| p2 < p && (#[trigger] origin_at(t, p2)) is Some;
        lemma_first_origin(t, p2)
    } else {
        p
    }
}

/// The last origin on the line of an origin `f`, from `q` on.
proof fn lemma_last_on_line(t: Seq<char>, f: int, q: int) -> (l: int)
    requires
        origin_at(t, f) is Some,
        origin_at(t, q) is Some,
        f <= q,
        same_line(t, f, q),
    ensures
        origin_at(t, l) is Some,
        q <= l,
        same_line(t, f, l),
        forall|p2: int| l < p2 && (#[trigger] origin_at(t, p2)) is Some ==> !same_line(t, l, p2),
    decreases t.len() - q,
{
    if exists|p2: int| q < p2 && (#[trigger] origin_at(t, p2)) is Some && same_line(t, q, p2) {
        let p2 = choose|p2: int| q < p2 && (#[trigger] origin_at(t, p2)) is Some && same_line(t, q, p2);
        lemma_same_line_join(t, f, q, p2);
        lemma_last_on_line(t, f, p2)
    } else {
        q
    }
}

/// A title that holds an origin has a chosen one.
pub proof fn lemma_chosen_origin_exists(t: Seq<char>, p: int)
    requires
        origin_at(t, p) is Some,
    ensures
        exists|c: int| chosen_origin(t, c),
{
    let f = lemma_first_origin(t, p);
    let l = lemma_last_on_line(t, f, f);
    assert forall|p2: int| p2 < l && (#[trigger] origin_at(t, p2)) is Some implies same_line(t, p2, l) by {
        assert(f <= p2);
    }
    assert(chosen_origin(t, l));
}

/// The origin that ends a title ` ... from 'owner/name'`, and no origin
/// after it.
proof fn lemma_final_origin(a: Seq<char>, owner: Seq<char>, name: Seq<char>)
    requires
        plain_name(owner),
        plain_name(name),
    ensures
        origin_at(a + origin_marker() + owner + "/"@ + name + "'"@, a.len() as int) == Some((owner, name)),
        forall|p2: int|
            a.len() < p2 ==> (#[trigger] origin_at(a + origin_marker() + owner + "/"@ + name + "'"@, p2)) is None,
{
    reveal_strlit(" from '");
    reveal_strlit("/");
    reveal_strlit("'");
    let t = a + origin_marker() + owner + "/"@ + name + "'"@;
    let p = a.len() as int;
    let q = p + 7 + owner.len();
    let r = q + 1 + name.len();
    assert(t.len() == r + 1);
    assert(t.subrange(p, p + 7) =~= origin_marker());
    assert forall|k: int| p + 7 <= k < q implies name_char(#[trigger] t[k]) by {
        assert(t[k] == owner[k - p - 7]);
    }
    assert(t[q] == '/');
    lemma_name_end_run(t, p + 7, q);
    assert forall|k: int| q + 1 <= k < r implies name_char(#[trigger] t[k]) by {
        assert(t[k] == name[k - q - 1]);
    }
    assert(t[r] == '\'');
    lemma_name_end_run(t, q + 1, r);
    assert(t.subrange(p + 7, q) =~= owner);
    assert(t.subrange(q + 1, r) =~= name);
    assert forall|p2: int| p < p2 implies (#[trigger] origin_at(t, p2)) is None by {
        if origin_at(t, p2) is Some {
            assert(t.subrange(p2, p2 + 7)[6] == t[p2 + 6]);
            assert(t[p2 + 6] == '\'');
            if p2 + 6 < q {
                assert(t[p2 + 6] == owner[p2 + 6 - p - 7]);
            } else if p2 + 6 == q {
            } else if p2 + 6 < r {
                assert(t[p2 + 6] == name[p2 + 6 - q - 1]);
            } else {
                assert(name_end(t, p2 + 7) == t.len());
            }
        }
    }
}

/// A title ending with ` from 'owner/name'` names the repository
/// `owner/name` when every origin on an earlier line of the title names
/// that same repository.
pub proof fn lemma_title_with_origin(a: Seq<char>, owner: Seq<char>, name: Seq<char>)
    requires
        earlier_lines_name(a + origin_marker() + owner + "/"@ + name + "'"@, a.len() as int, (owner, name)),
        plain_name(owner),
        plain_name(name),
    ensures
        title_origin(a + origin_marker() + owner + "/"@ + name + "'"@) == Some((owner, name)),
{
    let t = a + origin_marker() + owner + "/"@ + name + "'"@;
    let p = a.len() as int;
    lemma_final_origin(a, owner, name);
    lemma_chosen_origin_exists(t, p);
    let c = choose|c: int| chosen_origin(t, c);
    if c > p {
        assert(origin_at(t, c) is None);
    } else if c < p {
        if same_line(t, c, p) {
            assert(origin_at(t, p) is Some);
            assert(false);
        }
    }
}

/// In a title whose first part `a` is one line, every origin that starts in
/// `a` is on the line of the end of `a`.
proof fn lemma_one_line_prefix(a: Seq<char>, rest: Seq<char>, x: (Seq<char>, Seq<char>))
    requires
        single_line(a),
    ensures
        earlier_lines_name(a + rest, a.len() as int, x),
{
    let t = a + rest;
    let p = a.len() as int;
    assert forall|p2: int| p2 < p && (#[trigger] origin_at(t, p2)) is Some implies same_line(t, p2, p) by {
        assert forall|k: int| p2 <= k < p implies t[k] != '\n' by {
            assert(t[k] == a[k]);
        }
    }
}

fn name_end_exec(t: &Vec<char>, a: usize) -> (res: usize)
    requires
        a <= t@.len(),
    ensures
        res as int == name_end(t@, a as int),
        a <= res <= t@.len(),
{
    let mut i = a;
    while i < t.len() && t[i] != '\'' && t[i] != '/'
        invariant
            a <= i <= t@.len(),
            name_end(t@, i as int) == name_end(t@, a as int),
        decreases t@.len() - i,
    {
        i = i + 1;
    }
    i
}

/// Whether ` from '` starts at `p`.
fn marker_at(t: &Vec<char>, m: &Vec<char>, p: usize) -> (res: bool)
    requires
        m@ == origin_marker(),
    ensures
        res == (p + 7 <= t@.len() && t@.subrange(p as int, p + 7) == origin_marker()),
{
    proof {
        reveal_strlit(" from '");
    }
    let n = t.len();
    if p > n || n - p < 7 {
        return false;
    }
    let mut k: usize = 0;
    while k < 7
        invariant
            k <= 7,
            p + 7 <= n,
            n == t@.len(),
            m@ == origin_marker(),
            m@.len() == 7,
            forall|j: int| 0 <= j < k ==> t@[p + j] == m@[j],
        decreases 7 - k,
    {
        if t[p + k] != m[k] {
            assert(t@.subrange(p as int, p + 7)[k as int] == t@[p + k]);
            return false;
        }
        k = k + 1;
    }
    assert(t@.subrange(p as int, p + 7) =~= m@);
    true
}

/// Where the parts of the origin at `p` end, when there is one.
fn origin_at_exec(t: &Vec<char>, m: &Vec<char>, p: usize) -> (res: Option<(usize, usize)>)
    requires
        m@ == origin_marker(),
    ensures
        res is Some == origin_at(t@, p as int) is Some,
        res matches Some((q, r)) ==> p + 7 <= q < r < t@.len() && origin_at(t@, p as int) == Some(
            (t@.subrange(p + 7, q as int), t@.subrange(q + 1, r as int)),
        ),
{
    let n = t.len();
    if !marker_at(t, m, p) {
        return None;
    }
    let q = name_end_exec(t, p + 7);
    if q < t.len() && t[q] == '/' {
        let r = name_end_exec(t, q + 1);
        if r < t.len() && t[r] == '\'' {
            return Some((q, r));
        }
    }
    None
}

/// The origin the pattern captures in `t`: its position and where its two
/// parts end.
fn find_origin(t: &Vec<char>) -> (res: Option<(usize, usize, usize)>)
    ensures
        match res {
            Some((p, q, r)) => chosen_origin(t@, p as int) && p + 7 <= q < r < t@.len() && origin_at(
                t@,
                p as int,
            ) == Some((t@.subrange(p + 7, q as int), t@.subrange(q + 1, r as int))),
            None => forall|p: int| (#[trigger] origin_at(t@, p)) is None,
        },
{
    let m = chars_of(" from '");
    let mut first: Option<usize> = None;
    let mut best: (usize, usize, usize) = (0, 0, 0);
    let mut i: usize = 0;
    while i < t.len()
        invariant
            i <= t@.len(),
            m@ == origin_marker(),
            first is None ==> forall|p: int| p < i ==> (#[trigger] origin_at(t@, p)) is None,
            first matches Some(f) ==> {
                &&& f <= best.0 < i
                &&& forall|p: int| p < f ==> (#[trigger] origin_at(t@, p)) is None
                &&& same_line(t@, f as int, i as int)
                &&& best.0 + 7 <= best.1 < best.2 < t@.len()
                &&& origin_at(t@, best.0 as int) == Some(
                    (t@.subrange(best.0 + 7, best.1 as int), t@.subrange(best.1 + 1, best.2 as int)),
                )
                &&& forall|p: int| best.0 < p < i ==> (#[trigger] origin_at(t@, p)) is None
            },
        decreases t@.len() - i,
    {
        if t[i] == '\n' && first.is_some() {
            proof {
                assert forall|p2: int| best.0 < p2 && (#[trigger] origin_at(t@, p2)) is Some implies !same_line(
                    t@,
                    best.0 as int,
                    p2,
                ) by {
                    if p2 == i {
                        assert(t@.subrange(p2, p2 + 7)[0] == t@[p2]);
                        assert(origin_marker()[0] == ' ') by {
                            reveal_strlit(" from '");
                        }
                    }
                }
                assert forall|p2: int| p2 < best.0 && (#[trigger] origin_at(t@, p2)) is Some implies same_line(
                    t@,
                    p2,
                    best.0 as int,
                ) by {}
            }
            return Some(best);
        }
        match origin_at_exec(t, &m, i) {
            Some((q, r)) => {
                if first.is_none() {
                    first = Some(i);
                }
                best = (i, q, r);
            },
            None => {},
        }
        proof {
            if first is Some {
                if t@[i as int] == '\n' && i + 7 <= t@.len() {
                    assert(t@.subrange(i as int, i + 7)[0] == t@[i as int]);
                    assert(origin_marker()[0] == ' ') by {
                        reveal_strlit(" from '");
                    }
                }
                assert(t@[i as int] != '\n' || origin_at(t@, i as int) is None);
            }
        }
        i = i + 1;
    }
    match first {
        None => {
            assert forall|p: int| (#[trigger] origin_at(t@, p)) is None by {}
            None
        },
        Some(_) => {
            assert forall|p2: int| best.0 < p2 && (#[trigger] origin_at(t@, p2)) is Some implies !same_line(
                t@,
                best.0 as int,
                p2,
            ) by {}
            assert forall|p2: int| p2 < best.0 && (#[trigger] origin_at(t@, p2)) is Some implies same_line(
                t@,
                p2,
                best.0 as int,
            ) by {}
            Some(best)
        },
    }
}

/// The owner and name of the repository that an issue title names, as the
/// pattern `.* from '([^'/]*)/([^'/]*)'.*` captures them.
pub fn issue_origin(title: &str) -> (res: Option<(String, String)>)
    ensures
        match res {
            Some((owner, name)) => title_origin(title@) == Some((owner@, name@)),
            None => title_origin(title@) is None,
        },
{
    let t = chars_of(title);
    match find_origin(&t) {
        Some((p, q, r)) => {
            proof {
                let c = choose|p2: int| chosen_origin(t@, p2);
                lemma_chosen_origin_unique(t@, c, p as int);
            }
            let owner = title.substring_char(p + 7, q).to_owned();
            let name = title.substring_char(q + 1, r).to_owned();
            Some((owner, name))
        },
        None => None,
    }
}

/// Texts of a list of strings.
pub open spec fn texts(v: Seq<String>) -> Seq<Seq<char>> {
    v.map_values(|s: String| s@)
}

/// A copy of a list of strings.
pub fn copy_strings(v: &Vec<String>) -> (res: Vec<String>)
    ensures
        texts(res@) == texts(v@),
{
    let mut res: Vec<String> = Vec::new();
    let mut i: usize = 0;
    while i < v.len()
        invariant
            i <= v@.len(),
            texts(res@) == texts(v@).take(i as int),
        decreases v@.len() - i,
    {
        let c = v[i].clone();
        let ghost before = res@;
        res.push(c);
        assert(res@ == before.push(c));
        assert(texts(res@) =~= texts(before).push(c@));
        assert(texts(v@).take(i + 1) =~= texts(v@).take(i as int).push(v@[i as int]@));
        assert(texts(res@) =~= texts(v@).take(i + 1));
        i = i + 1;
    }
    assert(texts(v@).take(v@.len() as int) =~= texts(v@));
    res
}

/// The text of an optional string slice.
pub open spec fn opt_text(o: Option<&str>) -> Option<Seq<char>> {
    match o {
        Some(s) => Some(s@),
        None => None,
    }
}

/// The name of the redeployed service, or `all services` for a full one.
pub open spec fn service_label(service: Option<Seq<char>>) -> Seq<char> {
    match service {
        Some(s) => s,
        None => "all services"@,
    }
}

/// The first six bytes of a commit identifier, as text.
pub open spec fn short_commit(after: Seq<char>) -> Seq<char> {
    decode_utf8(encode_utf8(after).take(6))
}

/// The label of the issues about failed deployments.
pub open spec fn failure_label() -> Seq<char> {
    "build failed"@
}

/// Title of the issue about a failed deployment triggered by a package.
pub open spec fn package_issue_title(repository: Seq<char>) -> Seq<char> {
    "Deployment failed for package from '"@ + repository + "'"@
}

/// Text of the issue about a failed deployment triggered by a package.
pub open spec fn package_issue_text(
    service: Seq<char>,
    package: Seq<char>,
    package_url: Seq<char>,
    date: Seq<char>,
    log: Seq<char>,
) -> Seq<char> {
    "Deployment for "@ + service + " failed.\nTriggered by the publication of ["@ + package + "]("@
        + package_url + ") at "@ + date + ".\n\nLogs:\n```\n"@ + log + "\n```\n"@
}

/// Title of the issue about a failed deployment triggered by a push.
pub open spec fn push_issue_title(service: Seq<char>, after: Seq<char>, repository: Seq<char>) -> Seq<
    char,
> {
    "Deployment failed for "@ + service + " ("@ + short_commit(after) + ") from '"@ + repository
        + "'"@
}

/// Text of the issue about a failed deployment triggered by a push.
pub open spec fn push_issue_text(
    service: Seq<char>,
    commits: nat,
    repository_url: Seq<char>,
    after: Seq<char>,
    log: Seq<char>,
) -> Seq<char> {
    "Deployment for "@ + service + " failed.\nTriggered by the push of "@ + decimal(commits)
        + " commits on "@ + repository_url + ". HEAD after the push is "@ + after
        + ".\n\nLogs:\n```\n"@ + log + "\n```\n"@
}

proof fn lemma_failed_opening(head: Seq<char>, lit: Seq<char>, rest: Seq<char>)
    requires
        lit.len() >= 8,
        lit.take(8) == " failed."@,
    ensures
        (head + lit + rest).take((head + " failed."@).len() as int) == head + " failed."@,
{
    reveal_strlit(" failed.");
    let t = head + lit + rest;
    let o = head + " failed."@;
    assert forall|i: int| 0 <= i < o.len() implies #[trigger] t.take(o.len() as int)[i] == o[i] by {
        if i >= head.len() {
            assert(lit.take(8)[i - head.len()] == lit[i - head.len()]);
        }
    }
    assert(t.take(o.len() as int) =~= o);
}

/// The text of an issue about a failed deployment opens by naming the
/// service whose deployment failed, whether a package or a push triggered
/// it: `Deployment for <service> failed.`
pub proof fn law_issue_names_the_failed_service(
    service: Seq<char>,
    package: Seq<char>,
    package_url: Seq<char>,
    date: Seq<char>,
    commits: nat,
    repository_url: Seq<char>,
    after: Seq<char>,
    log: Seq<char>,
)
    ensures
        service_label(Some(service)) == service,
        package_issue_text(service, package, package_url, date, log).take(
            ("Deployment for "@ + service + " failed."@).len() as int,
        ) == "Deployment for "@ + service + " failed."@,
        push_issue_text(service, commits, repository_url, after, log).take(
            ("Deployment for "@ + service + " failed."@).len() as int,
        ) == "Deployment for "@ + service + " failed."@,
{
    reveal_strlit(" failed.");
    reveal_strlit(" failed.\nTriggered by the publication of [");
    reveal_strlit(" failed.\nTriggered by the push of ");
    let head = "Deployment for "@ + service;
    let l1 = " failed.\nTriggered by the publication of ["@;
    let r1 = package + "]("@ + package_url + ") at "@ + date + ".\n\nLogs:\n```\n"@ + log + "\n```\n"@;
    assert(l1.take(8) =~= " failed."@);
    assert(package_issue_text(service, package, package_url, date, log) =~= head + l1 + r1);
    lemma_failed_opening(head, l1, r1);
    let l2 = " failed.\nTriggered by the push of "@;
    let r2 = decimal(commits) + " commits on "@ + repository_url + ". HEAD after the push is "@ + after
        + ".\n\nLogs:\n```\n"@ + log + "\n```\n"@;
    assert(l2.take(8) =~= " failed."@);
    assert(push_issue_text(service, commits, repository_url, after, log) =~= head + l2 + r2);
    lemma_failed_opening(head, l2, r2);
}

/// A push's commit identifier can be cut after its sixth byte.
pub open spec fn commit_cuttable(payload: Result<Payload, Error>) -> bool {
    match payload {
        Ok(Payload::Push(p)) => is_char_boundary(encode_utf8(p.after@), 6),
        _ => true,
    }
}

/// The text of an optional string, or `fallback`.
pub open spec fn text_or(s: Option<String>, fallback: Seq<char>) -> Seq<char> {
    match s {
        Some(t) => t@,
        None => fallback,
    }
}

fn short_commit_str(after: &str) -> (res: &str)
    requires
        is_char_boundary(encode_utf8(after@), 6),
    ensures
        res@ == short_commit(after@),
{
    let (head, _) = after.split_at(6);
    proof {
        vstd::utf8::encode_utf8_decode_utf8(head@);
        assert(head.spec_bytes() =~= encode_utf8(after@).take(6));
    }
    head
}

/// The issue to open when a redeployment of `service` (of every service
/// when `None`) failed with log `log`, given the delivery that triggered it;
/// none when the delivery could not be read.
pub fn open_issue_body(
    log: &str,
    service: Option<&str>,
    payload: &Result<Payload, Error>,
    assignees: &Vec<String>,
) -> (res: Option<PostIssueBody>)
    requires
        commit_cuttable(*payload),
    ensures
        match *payload {
            Err(_) => res is None,
            Ok(Payload::Action(Action::Published { package, repository })) => res is Some && res->0.title@
                == package_issue_title(repository.full_name@) && res->0.body@ == package_issue_text(
                service_label(opt_text(service)),
                package.name@,
                package.html_url@,
                text_or(package.updated_at, "None"@),
                log@,
            ),
            Ok(Payload::Push(p)) => res is Some && res->0.title@ == push_issue_title(
                service_label(opt_text(service)),
                p.after@,
                p.repository.full_name@,
            ) && res->0.body@ == push_issue_text(
                service_label(opt_text(service)),
                p.commits@.len(),
                p.repository.html_url@,
                p.after@,
                log@,
            ),
        },
        res matches Some(b) ==> texts(b.assignees@) == texts(assignees@) && texts(b.labels@) == seq![
            failure_label(),
        ],
        service matches Some(s) ==> (res matches Some(b) ==> b.body@.take(
            ("Deployment for "@ + s@ + " failed."@).len() as int,
        ) == "Deployment for "@ + s@ + " failed."@),
        service is None ==> (res matches Some(b) ==> b.body@.take(
            ("Deployment for all services failed."@).len() as int,
        ) == "Deployment for all services failed."@),
{
    proof {
        reveal_strlit("all services");
        reveal_strlit("Deployment for ");
        reveal_strlit(" failed.");
        reveal_strlit("Deployment for all services failed.");
        assert("Deployment for "@ + "all services"@ + " failed."@ =~= "Deployment for all services failed."@);
    }
    let label = match service {
        Some(s) => s,
        None => "all services",
    };
    let mut labels: Vec<String> = Vec::new();
    labels.push(String::from_str("build failed"));
    assert(texts(labels@) =~= seq![failure_label()]);
    match payload {
        Err(_) => None,
        Ok(Payload::Action(Action::Published { package, repository })) => {
            let mut title = String::from_str("Deployment failed for package from '");
            title.append(repository.full_name.as_str());
            title.append("'");
            let date = match &package.updated_at {
                Some(d) => d.as_str(),
                None => "None",
            };
            let mut body = String::from_str("Deployment for ");
            body.append(label);
            body.append(" failed.\nTriggered by the publication of [");
            body.append(package.name.as_str());
            body.append("](");
            body.append(package.html_url.as_str());
            body.append(") at ");
            body.append(date);
            body.append(".\n\nLogs:\n```\n");
            body.append(log);
            body.append("\n```\n");
            proof {
                law_issue_names_the_failed_service(
                    service_label(opt_text(service)),
                    package.name@,
                    package.html_url@,
                    text_or(package.updated_at, "None"@),
                    0,
                    Seq::empty(),
                    Seq::empty(),
                    log@,
                );
            }
            Some(PostIssueBody { title, body, assignees: copy_strings(assignees), labels })
        },
        Ok(Payload::Push(p)) => {
            let short = short_commit_str(p.after.as_str());
            let mut title = String::from_str("Deployment failed for ");
            title.append(label);
            title.append(" (");
            title.append(short);
            title.append(") from '");
            title.append(p.repository.full_name.as_str());
            title.append("'");
            let count = decimal_string(p.commits.len() as u64);
            let mut body = String::from_str("Deployment for ");
            body.append(label);
            body.append(" failed.\nTriggered by the push of ");
            body.append(count.as_str());
            body.append(" commits on ");
            body.append(p.repository.html_url.as_str());
            body.append(". HEAD after the push is ");
            body.append(p.after.as_str());
            body.append(".\n\nLogs:\n```\n");
            body.append(log);
            body.append("\n```\n");
            proof {
                law_issue_names_the_failed_service(
                    service_label(opt_text(service)),
                    Seq::empty(),
                    Seq::empty(),
                    Seq::empty(),
                    p.commits@.len(),
                    p.repository.html_url@,
                    p.after@,
                    log@,
                );
            }
            Some(PostIssueBody { title, body, assignees: copy_strings(assignees), labels })
        },
    }
}

/// What fixed the deployment, as the closing comment names it.
pub open spec fn fix_source(payload: Result<Payload, Error>) -> Seq<char> {
    match payload {
        Ok(Payload::Action(Action::Published { package, .. })) => "package "@ + package.name@ + " ("@
            + text_or(package.updated_at, Seq::empty()) + ")"@,
        Ok(Payload::Push(p)) => "commit "@ + short_commit(p.after@),
        Err(_) => "<unable to parse hook payload>"@,
    }
}

/// The repository the fix comes from; empty when the delivery could not be
/// read, which stands for a redeployment triggered by hand.
pub open spec fn fix_repository(payload: Result<Payload, Error>) -> Seq<char> {
    match payload {
        Ok(Payload::Action(Action::Published { repository, .. })) => repository.full_name@,
        Ok(Payload::Push(p)) => p.repository.full_name@,
        Err(_) => Seq::empty(),
    }
}

/// What fixed a deployment and the repository it comes from, read from the
/// delivery that triggered the successful redeployment.
pub fn fix_origin(payload: &Result<Payload, Error>) -> (res: (String, String))
    requires
        commit_cuttable(*payload),
    ensures
        res.0@ == fix_source(*payload),
        res.1@ == fix_repository(*payload),
{
    match payload {
        Ok(Payload::Action(Action::Published { package, repository })) => {
            let mut source = String::from_str("package ");
            source.append(package.name.as_str());
            source.append(" (");
            match &package.updated_at {
                Some(d) => source.append(d.as_str()),
                None => {},
            }
            source.append(")");
            (source, repository.full_name.clone())
        },
        Ok(Payload::Push(p)) => {
            let mut source = String::from_str("commit ");
            source.append(short_commit_str(p.after.as_str()));
            (source, p.repository.full_name.clone())
        },
        Err(_) => (String::from_str("<unable to parse hook payload>"), String::new()),
    }
}

/// An issue is closed by a fix when its title names the repository of the
/// fix (or, for a redeployment by hand, names `clicepfl`'s repository of
/// the service); any issue qualifies when every service was redeployed.
pub open spec fn fixed_by(title: Seq<char>, service: Option<Seq<char>>, fix_repo: Seq<char>) -> bool {
    match service {
        None => true,
        Some(s) => match title_origin(title) {
            None => false,
            Some((owner, name)) => if fix_repo.len() == 0 {
                owner == "clicepfl"@ && name == s
            } else {
                owner + "/"@ + name == fix_repo
            },
        },
    }
}

/// An issue opened for a failed deployment triggered by a push names the
/// repository of the push, so that the next successful deployment triggered
/// from that repository closes it — when the title is one line (the service
/// name and the short commit hold no line break), and otherwise when every
/// origin on an earlier line of the title names that same repository (it
/// fails when an earlier line holds an origin naming another repository and
/// the title's pattern captures that one).
pub proof fn law_push_issue_closed_by_fix_from_its_repository(
    service: Seq<char>,
    after: Seq<char>,
    owner: Seq<char>,
    name: Seq<char>,
    redeployed: Seq<char>,
)
    requires
        (single_line(service) && single_line(short_commit(after))) || earlier_lines_name(
            push_issue_title(service, after, owner + "/"@ + name),
            push_issue_title(service, after, owner + "/"@ + name).len() - owner.len() - name.len() - 9,
            (owner, name),
        ),
        plain_name(owner),
        plain_name(name),
    ensures
        title_origin(push_issue_title(service, after, owner + "/"@ + name)) == Some((owner, name)),
        fixed_by(push_issue_title(service, after, owner + "/"@ + name), Some(redeployed), owner + "/"@ + name),
{
    reveal_strlit("Deployment failed for ");
    reveal_strlit(" (");
    reveal_strlit(")");
    reveal_strlit(") from '");
    reveal_strlit(" from '");
    reveal_strlit("/");
    reveal_strlit("'");
    let a = "Deployment failed for "@ + service + " ("@ + short_commit(after) + ")"@;
    let rest = origin_marker() + owner + "/"@ + name + "'"@;
    assert(push_issue_title(service, after, owner + "/"@ + name) =~= a + origin_marker() + owner + "/"@
        + name + "'"@);
    assert(a + origin_marker() + owner + "/"@ + name + "'"@ =~= a + rest);
    if single_line(service) && single_line(short_commit(after)) {
        assert forall|i: int| 0 <= i < a.len() implies #[trigger] a[i] != '\n' by {
            let l1 = "Deployment failed for "@.len();
            let l2 = l1 + service.len();
            let l3 = l2 + 2;
            let l4 = l3 + short_commit(after).len();
            if i < l1 {
            } else if i < l2 {
                assert(a[i] == service[i - l1]);
            } else if i < l3 {
            } else if i < l4 {
                assert(a[i] == short_commit(after)[i - l3]);
            }
        }
        lemma_one_line_prefix(a, rest, (owner, name));
    }
    lemma_title_with_origin(a, owner, name);
    assert((owner + "/"@ + name).len() > 0);
}

/// An issue opened for a failed deployment triggered by a package names the
/// package's repository, so that the next successful deployment triggered
/// from that repository closes it.
pub proof fn law_package_issue_closed_by_fix_from_its_repository(
    owner: Seq<char>,
    name: Seq<char>,
    redeployed: Seq<char>,
)
    requires
        plain_name(owner),
        plain_name(name),
    ensures
        title_origin(package_issue_title(owner + "/"@ + name)) == Some((owner, name)),
        fixed_by(package_issue_title(owner + "/"@ + name), Some(redeployed), owner + "/"@ + name),
{
    reveal_strlit("Deployment failed for package from '");
    reveal_strlit("Deployment failed for package");
    reveal_strlit(" from '");
    reveal_strlit("/");
    reveal_strlit("'");
    let a = "Deployment failed for package"@;
    let rest = origin_marker() + owner + "/"@ + name + "'"@;
    assert(single_line(a));
    assert(package_issue_title(owner + "/"@ + name) =~= a + origin_marker() + owner + "/"@ + name + "'"@);
    assert(a + origin_marker() + owner + "/"@ + name + "'"@ =~= a + rest);
    lemma_one_line_prefix(a, rest, (owner, name));
    lemma_title_with_origin(a, owner, name);
    assert((owner + "/"@ + name).len() > 0);
}

/// The issue reports a failed deployment and is fixed by the redeployment.
pub open spec fn closes(issue: OpenIssueBody, service: Option<Seq<char>>, fix_repo: Seq<char>) -> bool {
    texts(issue.labels@).contains(failure_label()) && fixed_by(issue.title@, service, fix_repo)
}

/// Whether a redeployment closes an issue depends on its labels only through
/// whether one of them, wherever it stands, is `build failed`: an issue so
/// labelled is closed exactly when the redeployment fixes it, and one
/// without that label never is.
pub proof fn law_closing_looks_at_every_label(
    issue: OpenIssueBody,
    service: Option<Seq<char>>,
    fix_repo: Seq<char>,
)
    ensures
        closes(issue, service, fix_repo) == ((exists|i: int|
            0 <= i < issue.labels@.len() && #[trigger] issue.labels@[i]@ == "build failed"@) && fixed_by(
            issue.title@,
            service,
            fix_repo,
        )),
{
    reveal_strlit("build failed");
    let t = texts(issue.labels@);
    if exists|i: int| 0 <= i < issue.labels@.len() && #[trigger] issue.labels@[i]@ == "build failed"@ {
        let i = choose|i: int| 0 <= i < issue.labels@.len() && #[trigger] issue.labels@[i]@ == "build failed"@;
        assert(t[i] == failure_label());
    }
    if t.contains(failure_label()) {
        let i = choose|i: int| 0 <= i < t.len() && t[i] == failure_label();
        assert(issue.labels@[i]@ == "build failed"@);
    }
}

/// Two issues with the same title and the same labels, in whatever order
/// and however repeated, are closed by the same redeployments.
pub proof fn law_closing_ignores_label_order(
    a: OpenIssueBody,
    b: OpenIssueBody,
    service: Option<Seq<char>>,
    fix_repo: Seq<char>,
)
    requires
        a.title@ == b.title@,
        forall|x: Seq<char>| texts(a.labels@).contains(x) <==> texts(b.labels@).contains(x),
    ensures
        closes(a, service, fix_repo) == closes(b, service, fix_repo),
{
    assert(texts(a.labels@).contains(failure_label()) == texts(b.labels@).contains(failure_label()));
}

fn has_failure_label(labels: &Vec<String>) -> (res: bool)
    ensures
        res == texts(labels@).contains(failure_label()),
{
    let mut i: usize = 0;
    while i < labels.len()
        invariant
            i <= labels@.len(),
            forall|j: int| 0 <= j < i ==> texts(labels@)[j] != failure_label(),
        decreases labels@.len() - i,
    {
        if same_text(labels[i].as_str(), "build failed") {
            assert(texts(labels@)[i as int] == failure_label());
            return true;
        }
        i = i + 1;
    }
    false
}

/// Whether the successful redeployment of `service` (of every service when
/// `None`), with a fix from `fix_repo`, closes the issue.
pub fn issue_is_fixed(issue: &OpenIssueBody, service: Option<&str>, fix_repo: &str) -> (res: bool)
    ensures
        res == closes(*issue, opt_text(service), fix_repo@),
{
    if !has_failure_label(&issue.labels) {
        return false;
    }
    match service {
        None => true,
        Some(s) => match issue_origin(issue.title.as_str()) {
            None => false,
            Some((owner, name)) => {
                if fix_repo.is_empty() {
                    same_text(owner.as_str(), "clicepfl") && same_text(name.as_str(), s)
                } else {
                    let mut full = owner.clone();
                    full.append("/");
                    full.append(name.as_str());
                    same_text(full.as_str(), fix_repo)
                }
            },
        },
    }
}

/// The issues that the successful redeployment closes, in their order.
pub fn issues_to_close(issues: Vec<OpenIssueBody>, service: Option<&str>, fix_repo: &str) -> (res: Vec<
    OpenIssueBody,
>)
    ensures
        res@ == issues@.filter(|i: OpenIssueBody| closes(i, opt_text(service), fix_repo@)),
{
    let ghost pred = |i: OpenIssueBody| closes(i, opt_text(service), fix_repo@);
    let ghost all = issues@;
    let mut res: Vec<OpenIssueBody> = Vec::new();
    assert(all.take(0) =~= Seq::<OpenIssueBody>::empty());
    for issue in it: issues.into_iter()
        invariant
            it.seq() == all,
            pred == (|i: OpenIssueBody| closes(i, opt_text(service), fix_repo@)),
            res@ == all.take(it.index() as int).filter(pred),
    {
        let ghost k = it.index() as int;
        let keep = issue_is_fixed(&issue, service, fix_repo);
        proof {
            reveal_with_fuel(Seq::<_>::filter, 1);
            assert(all.take(k + 1).drop_last() =~= all.take(k));
            assert(all.take(k + 1).last() == all[k]);
            assert(issue == all[k]);
            assert(closes(all[k], opt_text(service), fix_repo@) == keep);
            assert(pred(all[k]) == keep);
        }
        if keep {
            res.push(issue);
        }
    }
    assert(all.take(all.len() as int) =~= all);
    res
}

/// The next request while closing fixed issues.
#[derive(Debug)]
pub enum IssueRequest {
    /// Comment on this issue that it is fixed.
    Comment(u32),
    /// Close this issue.
    Close(u32),
    /// Every issue is handled.
    Done,
}

/// Closing the fixed issues one after the other: each is first commented
/// on, and closed only once the comment succeeded; an issue whose comment
/// or closing fails is left, and the next one is handled.
pub struct IssueClosing {
    numbers: Vec<u32>,
    next: usize,
    commented: bool,
}

impl IssueClosing {
    /// The issues not handled yet, in order; the first one may be under way.
    pub closed spec fn queue(&self) -> Seq<u32> {
        self.numbers@.skip(self.next as int)
    }

    /// Whether the first issue of the queue was commented on, and awaits
    /// closing.
    pub closed spec fn commented(&self) -> bool {
        self.commented
    }

    #[verifier::type_invariant]
    spec fn next_in_range(&self) -> bool {
        &&& self.next <= self.numbers@.len()
        &&& self.commented ==> self.next < self.numbers@.len()
    }

    /// Starts closing the given issues, in their order.
    pub fn new(issues: &Vec<OpenIssueBody>) -> (res: IssueClosing)
        ensures
            res.queue() == issues@.map_values(|i: OpenIssueBody| i.number),
            !res.commented(),
    {
        let mut numbers: Vec<u32> = Vec::new();
        let mut i: usize = 0;
        while i < issues.len()
            invariant
                i <= issues@.len(),
                numbers@ == issues@.map_values(|i: OpenIssueBody| i.number).take(i as int),
            decreases issues@.len() - i,
        {
            numbers.push(issues[i].number);
            assert(numbers@ =~= issues@.map_values(|i: OpenIssueBody| i.number).take(i + 1));
            i = i + 1;
        }
        let res = IssueClosing { numbers, next: 0, commented: false };
        assert(res.numbers@.skip(0) =~= issues@.map_values(|i: OpenIssueBody| i.number));
        res
    }

    /// The request to make now: close the first issue once it was commented
    /// on, comment on it otherwise; done when no issue remains.
    pub fn request(&self) -> (res: IssueRequest)
        ensures
            res == if self.queue().len() == 0 {
                IssueRequest::Done
            } else if self.commented() {
                IssueRequest::Close(self.queue()[0])
            } else {
                IssueRequest::Comment(self.queue()[0])
            },
    {
        proof {
            use_type_invariant(self);
        }
        if self.next >= self.numbers.len() {
            IssueRequest::Done
        } else if self.commented {
            IssueRequest::Close(self.numbers[self.next])
        } else {
            IssueRequest::Comment(self.numbers[self.next])
        }
    }

    /// Records whether the request made last succeeded: a successful comment
    /// leads to closing the issue; a failed comment, or a closing (whether
    /// it succeeded or not), ends the issue and goes on to the next one.
    pub fn report(&mut self, ok: bool)
        requires
            old(self).queue().len() > 0,
        ensures
            !old(self).commented() && ok ==> final(self).commented() && final(self).queue() == old(
                self,
            ).queue(),
            old(self).commented() || !ok ==> !final(self).commented() && final(self).queue() == old(
                self,
            ).queue().drop_first(),
    {
        proof {
            use_type_invariant(&*self);
        }
        let len = self.numbers.len();
        assert(self.numbers@.skip(self.next as int).len() == len - self.next);
        if !self.commented && ok {
            self.commented = true;
        } else {
            assert(self.numbers@.skip(self.next as int).drop_first() =~= self.numbers@.skip(self.next + 1));
            self.commented = false;
            self.next = self.next + 1;
        }
    }
}

/// Address of the issues of the infrastructure repository.
pub fn issues_url() -> (res: String)
    ensures
        res@ == "https://api.github.com/repos/clicepfl/infra/issues"@,
{
    String::from_str("https://api.github.com/repos/clicepfl/infra/issues")
}

/// Address of one issue.
pub open spec fn issue_address(number: u32) -> Seq<char> {
    "https://api.github.com/repos/clicepfl/infra/issues/"@ + decimal(number as nat)
}

/// Address of one issue.
pub fn issue_url(number: u32) -> (res: String)
    ensures
        res@ == issue_address(number),
{
    let mut url = String::from_str("https://api.github.com/repos/clicepfl/infra/issues/");
    let n = decimal_string(number as u64);
    url.append(n.as_str());
    url
}

/// Address of the comments of one issue.
pub fn issue_comments_url(number: u32) -> (res: String)
    ensures
        res@ == issue_address(number) + "/comments"@,
{
    let mut url = issue_url(number);
    url.append("/comments");
    url
}

/// The comment left on an issue closed by a fix.
pub fn fixed_comment(fix_source: &str) -> (res: IssueCommentBody)
    ensures
        res.body@ == "Fixed by "@ + fix_source@,
{
    let mut body = String::from_str("Fixed by ");
    body.append(fix_source);
    IssueCommentBody { body }
}

/// The change that closes an issue.
pub fn closing_update() -> (res: UpdateIssueBody)
    ensures
        res.state@ == "closed"@,
{
    UpdateIssueBody { state: String::from_str("closed") }
}

} // verus!
