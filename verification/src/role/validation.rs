//! Whether an incoming request should be processed: it names a known
//! service, it is not a redelivery, it was signed by GitHub, and its event
//! calls for a redeployment.

use vstd::prelude::*;
use crate::config::Config;
use crate::headers::{Headers, header_lookup, header_text};
use crate::signature::{signature_matches, signature_valid};
use crate::text::same_text;
use crate::role::error::Error;
use crate::role::github::event::{Action, Payload, Push};

verus! {

/// What the webhook remembers between requests.
#[derive(Debug)]
pub struct WebhookState {
    /// Identifiers of the deliveries already processed or being processed.
    pub processed_deliveries: Vec<String>,
}

impl WebhookState {
    /// The identifiers of the deliveries seen so far, in order.
    pub open spec fn delivered(&self) -> Seq<Seq<char>> {
        self.processed_deliveries@.map_values(|s: String| s@)
    }

    /// No delivery is remembered twice.
    pub open spec fn wf(&self) -> bool {
        self.delivered().no_duplicates()
    }

    /// A state that has seen no delivery.
    pub fn new() -> (res: WebhookState)
        ensures
            res.delivered() == Seq::<Seq<char>>::empty(),
            res.wf(),
    {
        let res = WebhookState { processed_deliveries: Vec::new() };
        assert(res.delivered() =~= Seq::<Seq<char>>::empty());
        res
    }

    /// Whether the delivery `id` was seen.
    pub fn has_seen(&self, id: &str) -> (res: bool)
        ensures
            res == self.delivered().contains(id@),
    {
        let mut i: usize = 0;
        while i < self.processed_deliveries.len()
            invariant
                i <= self.processed_deliveries@.len(),
                forall|j: int| 0 <= j < i ==> self.delivered()[j] != id@,
            decreases self.processed_deliveries@.len() - i,
        {
            if same_text(self.processed_deliveries[i].as_str(), id) {
                assert(self.delivered()[i as int] == id@);
                return true;
            }
            i = i + 1;
        }
        false
    }
}

impl Default for WebhookState {
    fn default() -> (res: WebhookState)
        ensures
            res.delivered() == Seq::<Seq<char>>::empty(),
    {
        WebhookState::new()
    }
}

/// Name of the header that identifies a delivery.
pub open spec fn delivery_header() -> Seq<char> {
    "X-GitHub-Delivery"@
}

/// Name of the header that names the event of a delivery.
pub open spec fn event_header() -> Seq<char> {
    "X-GitHub-Event"@
}

/// The identifier of the delivery: the delivery header read as text.
pub open spec fn delivery_id(h: Seq<(Seq<char>, Seq<u8>)>) -> Option<Seq<char>> {
    match header_lookup(h, delivery_header()) {
        None => None,
        Some(v) => header_text(v),
    }
}

/// What checking for a redelivery answers, given the deliveries seen
/// before: a bad request without a delivery identifier, `false` for a
/// delivery seen before, `true` for a new one.
pub open spec fn redelivery_result(delivered: Seq<Seq<char>>, h: Seq<(Seq<char>, Seq<u8>)>) -> Result<
    bool,
    Error,
> {
    match delivery_id(h) {
        None => Err(Error::BadRequest),
        Some(id) => Ok(!delivered.contains(id)),
    }
}

/// The deliveries seen after checking for a redelivery: a new delivery is
/// added at the end.
pub open spec fn redelivery_state(delivered: Seq<Seq<char>>, h: Seq<(Seq<char>, Seq<u8>)>) -> Seq<
    Seq<char>,
> {
    match delivery_id(h) {
        Some(id) => if delivered.contains(id) {
            delivered
        } else {
            delivered.push(id)
        },
        None => delivered,
    }
}

/// Records the delivery, unless it was already seen. `Ok(true)` means it is
/// new; `Ok(false)` that it was seen before (and the state is unchanged);
/// a missing or non-text delivery header is a bad request.
pub fn check_redelivery(headers: &Headers, state: &mut WebhookState) -> (res: Result<bool, Error>)
    ensures
        res == redelivery_result(old(state).delivered(), headers@),
        final(state).delivered() == redelivery_state(old(state).delivered(), headers@),
        old(state).wf() ==> final(state).wf(),
{
    let delivery = match headers.get_str("X-GitHub-Delivery") {
        Some(Some(d)) => d,
        _ => return Err(Error::BadRequest),
    };
    if state.has_seen(delivery.as_str()) {
        return Ok(false);
    }
    let ghost before = state.delivered();
    let ghost d = delivery@;
    state.processed_deliveries.push(delivery);
    assert(state.delivered() =~= before.push(d));
    proof {
        if before.no_duplicates() {
            assert forall|i: int, j: int| 0 <= i < j < state.delivered().len() implies state.delivered()[i]
                != state.delivered()[j] by {
                if j == before.len() {
                    assert(before[i] == state.delivered()[i]);
                }
            }
        }
    }
    Ok(true)
}

/// A delivery is acted on at most once: once it has been checked, checking
/// it again finds a redelivery and leaves the remembered deliveries as they
/// are.
pub proof fn law_redelivery_is_ignored(delivered: Seq<Seq<char>>, h: Seq<(Seq<char>, Seq<u8>)>)
    requires
        delivery_id(h) is Some,
    ensures
        redelivery_result(redelivery_state(delivered, h), h) == Ok::<bool, Error>(false),
        redelivery_state(redelivery_state(delivered, h), h) == redelivery_state(delivered, h),
{
    let id = delivery_id(h)->0;
    if !delivered.contains(id) {
        assert(delivered.push(id)[delivered.len() as int] == id);
    }
}

/// A delivery once seen stays seen, whatever delivery is checked next.
pub proof fn law_seen_delivery_stays_seen(delivered: Seq<Seq<char>>, h: Seq<(Seq<char>, Seq<u8>)>, id: Seq<char>)
    requires
        delivered.contains(id),
    ensures
        redelivery_state(delivered, h).contains(id),
{
    let i = choose|i: int| 0 <= i < delivered.len() && delivered[i] == id;
    if let Some(d) = delivery_id(h) {
        if !delivered.contains(d) {
            assert(delivered.push(d)[i] == id);
        }
    }
}

/// The deliveries remembered after a run of requests: `Some(h)` is a
/// request whose delivery was checked (`validate_call` with a known or no
/// service), `None` one refused before (an unknown service), which leaves
/// them as they are.
pub open spec fn deliveries_after(
    delivered: Seq<Seq<char>>,
    requests: Seq<Option<Seq<(Seq<char>, Seq<u8>)>>>,
) -> Seq<Seq<char>>
    decreases requests.len(),
{
    if requests.len() == 0 {
        delivered
    } else {
        let next = match requests[0] {
            Some(h) => redelivery_state(delivered, h),
            None => delivered,
        };
        deliveries_after(next, requests.drop_first())
    }
}

/// One delivery triggers at most one redeployment: once it has been found
/// new, checking it again after any run of other requests finds a
/// redelivery.
pub proof fn law_one_redeployment_per_delivery(
    delivered: Seq<Seq<char>>,
    h: Seq<(Seq<char>, Seq<u8>)>,
    requests: Seq<Option<Seq<(Seq<char>, Seq<u8>)>>>,
)
    requires
        redelivery_result(delivered, h) == Ok::<bool, Error>(true),
    ensures
        redelivery_result(deliveries_after(redelivery_state(delivered, h), requests), h) == Ok::<
            bool,
            Error,
        >(false),
{
    let id = delivery_id(h)->0;
    assert(redelivery_state(delivered, h) == delivered.push(id));
    assert(delivered.push(id)[delivered.len() as int] == id);
    lemma_seen_after_requests(redelivery_state(delivered, h), requests, id);
}

proof fn lemma_seen_after_requests(
    delivered: Seq<Seq<char>>,
    requests: Seq<Option<Seq<(Seq<char>, Seq<u8>)>>>,
    id: Seq<char>,
)
    requires
        delivered.contains(id),
    ensures
        deliveries_after(delivered, requests).contains(id),
    decreases requests.len(),
{
    if requests.len() > 0 {
        let next = match requests[0] {
            Some(h) => redelivery_state(delivered, h),
            None => delivered,
        };
        if let Some(h) = requests[0] {
            law_seen_delivery_stays_seen(delivered, h, id);
        }
        lemma_seen_after_requests(next, requests.drop_first(), id);
    }
}

/// The remembered deliveries never hold one twice.
pub proof fn law_deliveries_stay_distinct(delivered: Seq<Seq<char>>, h: Seq<(Seq<char>, Seq<u8>)>)
    requires
        delivered.no_duplicates(),
    ensures
        redelivery_state(delivered, h).no_duplicates(),
{
    if let Some(id) = delivery_id(h) {
        if !delivered.contains(id) {
            let after = delivered.push(id);
            assert forall|i: int, j: int| 0 <= i < j < after.len() implies after[i] != after[j] by {
                if j == delivered.len() {
                    assert(delivered[i] == after[i]);
                }
            }
        }
    }
}

/// A request is acted on only when it comes with a valid signature and an
/// event that calls for a redeployment.
pub proof fn law_only_signed_deliveries_redeploy(
    h: Seq<(Seq<char>, Seq<u8>)>,
    payload: Seq<u8>,
    secret: Seq<char>,
    parsed: Result<Payload, Error>,
)
    requires
        new_delivery_outcome(h, payload, secret, parsed) == Ok::<bool, Error>(true),
    ensures
        signature_valid(h, payload, secret),
        parsed matches Ok(p) && event_triggers(p),
{
}

/// Refuses a service that the configuration does not list.
pub fn validate_service(service: &str, config: &Config) -> (res: Result<(), Error>)
    ensures
        res == if config.services@.contains_key(service@) {
            Ok::<(), Error>(())
        } else {
            Err::<(), Error>(Error::InvalidService)
        },
{
    if config.services.contains_key(service) {
        Ok(())
    } else {
        Err(Error::InvalidService)
    }
}

/// Refuses a delivery that does not carry a valid signature for the
/// configured secret.
pub fn validate_signature(headers: &Headers, payload: &[u8], config: &Config) -> (res: Result<bool, Error>)
    ensures
        res == if signature_valid(headers@, payload@, config.secret@) {
            Ok::<bool, Error>(true)
        } else {
            Err::<bool, Error>(Error::InvalidSignature)
        },
{
    if signature_matches(headers, payload, config.secret.as_str()) {
        Ok(true)
    } else {
        Err(Error::InvalidSignature)
    }
}

/// The branch reference that a push to the repository's default branch names.
pub open spec fn default_branch_ref(push: Push) -> Seq<char> {
    "refs/heads/"@ + push.repository.default_branch@
}

/// A delivery calls for a redeployment when it is a package event, or a
/// push to the repository's default branch.
pub open spec fn event_triggers(p: Payload) -> bool {
    match p {
        Payload::Action(_) => true,
        Payload::Push(push) => push.ref_@ == default_branch_ref(push),
    }
}

/// A push calls for a redeployment exactly when its ref is
/// `refs/heads/<b>` for the branch `b` that the payload names as the
/// repository's default, whatever that branch is called; a push to any other
/// ref does not, and a package event always does.
pub proof fn law_push_redeploys_from_its_default_branch(p: Push, branch: Seq<char>, a: Action)
    ensures
        event_triggers(Payload::Push(p)) == (p.ref_@ == "refs/heads/"@ + p.repository.default_branch@),
        p.repository.default_branch@ == branch ==> (event_triggers(Payload::Push(p)) <==> p.ref_@
            == "refs/heads/"@ + branch),
        event_triggers(Payload::Action(a)),
{
}

/// Whether the (parsed) delivery calls for a redeployment; a delivery that
/// could not be parsed gives its error.
pub fn validate_event(parsed: Result<Payload, Error>) -> (res: Result<bool, Error>)
    ensures
        res == match parsed {
            Ok(p) => Ok::<bool, Error>(event_triggers(p)),
            Err(e) => Err::<bool, Error>(e),
        },
        parsed matches Ok(Payload::Push(push)) ==> res == Ok::<bool, Error>(push.ref_@ == "refs/heads/"@
            + push.repository.default_branch@),
{
    match parsed {
        Ok(Payload::Action(_)) => Ok(true),
        Ok(Payload::Push(push)) => {
            let mut expected = String::from_str("refs/heads/");
            expected.append(push.repository.default_branch.as_str());
            Ok(same_text(push.ref_.as_str(), expected.as_str()))
        },
        Err(e) => Err(e),
    }
}

/// The kinds of deliveries that the webhook can act on.
#[derive(Debug)]
pub enum EventKind {
    Package,
    Push,
}

/// The kind of delivery that the event header names: `package` or `push`;
/// other events are not allowed, and a missing or non-text header is a bad
/// request.
pub open spec fn event_kind_of(h: Seq<(Seq<char>, Seq<u8>)>) -> Result<EventKind, Error> {
    match header_lookup(h, event_header()) {
        None => Err(Error::BadRequest),
        Some(v) => match header_text(v) {
            None => Err(Error::BadRequest),
            Some(t) => if t == "push"@ {
                Ok(EventKind::Push)
            } else if t == "package"@ {
                Ok(EventKind::Package)
            } else {
                Err(Error::ForbiddenEvent)
            },
        },
    }
}

/// Which kind of payload the delivery carries, read from its event header.
pub fn event_kind(headers: &Headers) -> (res: Result<EventKind, Error>)
    ensures
        res == event_kind_of(headers@),
{
    let name = match headers.get_str("X-GitHub-Event") {
        Some(Some(n)) => n,
        _ => return Err(Error::BadRequest),
    };
    if same_text(name.as_str(), "push") {
        Ok(EventKind::Push)
    } else if same_text(name.as_str(), "package") {
        Ok(EventKind::Package)
    } else {
        Err(Error::ForbiddenEvent)
    }
}

/// What `validate_call` answers once the delivery is known to be new.
pub open spec fn new_delivery_outcome(
    h: Seq<(Seq<char>, Seq<u8>)>,
    payload: Seq<u8>,
    secret: Seq<char>,
    parsed: Result<Payload, Error>,
) -> Result<bool, Error> {
    if !signature_valid(h, payload, secret) {
        Err(Error::InvalidSignature)
    } else {
        match parsed {
            Ok(p) => Ok(event_triggers(p)),
            Err(e) => Err(e),
        }
    }
}

/// Decides whether a request triggers a redeployment: `Ok(true)` to
/// redeploy, `Ok(false)` to answer without doing anything (a redelivery, or
/// an event that calls for nothing), or the error to answer with. `parsed`
/// is the delivery's payload as read according to its event header. The
/// delivery is remembered once the service is known to exist.
pub fn validate_call(
    headers: &Headers,
    payload: &[u8],
    state: &mut WebhookState,
    service: Option<&str>,
    config: &Config,
    parsed: Result<Payload, Error>,
) -> (res: Result<bool, Error>)
    ensures
        old(state).wf() ==> final(state).wf(),
        match service {
            Some(s) if !config.services@.contains_key(s@) => res == Err::<bool, Error>(
                Error::InvalidService,
            ) && final(state).delivered() == old(state).delivered(),
            _ => final(state).delivered() == redelivery_state(old(state).delivered(), headers@) && res
                == match redelivery_result(old(state).delivered(), headers@) {
                Ok(true) => new_delivery_outcome(headers@, payload@, config.secret@, parsed),
                other => other,
            },
        },
{
    if let Some(s) = service {
        if let Err(e) = validate_service(s, config) {
            return Err(e);
        }
    }
    match check_redelivery(headers, state) {
        Err(e) => return Err(e),
        Ok(false) => return Ok(false),
        Ok(true) => {},
    }
    if let Err(e) = validate_signature(headers, payload, config) {
        return Err(e);
    }
    validate_event(parsed)
}

} // verus!
