//! Whether a delivery should be processed: it is signed by GitHub, and its
//! event is not a `ping`.

use vstd::prelude::*;
use crate::config::Config;
use crate::headers::{Headers, header_lookup};
use crate::signature::{signature_matches, signature_valid};
use crate::standalone::error::Error;

verus! {

/// The bytes of `ping`.
pub open spec fn ping() -> Seq<u8> {
    seq![112u8, 105u8, 110u8, 103u8]
}

/// A delivery calls for a redeployment when it names an event other than
/// `ping` (the one GitHub sends when the webhook is set up).
pub open spec fn event_calls_for_redeploy(h: Seq<(Seq<char>, Seq<u8>)>) -> bool {
    match header_lookup(h, "X-GitHub-Event"@) {
        Some(v) => v != ping(),
        None => false,
    }
}

/// Refuses a delivery that does not carry a valid signature for the
/// configured secret.
pub fn validate_signature(headers: &Headers, payload: &[u8], config: &Config) -> (res: Result<(), Error>)
    ensures
        res == if signature_valid(headers@, payload@, config.secret@) {
            Ok::<(), Error>(())
        } else {
            Err::<(), Error>(Error::InvalidSignature)
        },
{
    if signature_matches(headers, payload, config.secret.as_str()) {
        Ok(())
    } else {
        Err(Error::InvalidSignature)
    }
}

fn is_ping(v: &[u8]) -> (res: bool)
    ensures
        res == (v@ == ping()),
{
    if v.len() != 4 {
        return false;
    }
    let res = v[0] == 112u8 && v[1] == 105u8 && v[2] == 110u8 && v[3] == 103u8;
    if res {
        assert(v@ =~= ping());
    } else {
        assert(v@ != ping()) by {
            if v@ == ping() {
                assert(v@[0] == ping()[0] && v@[1] == ping()[1] && v@[2] == ping()[2] && v@[3] == ping()[3]);
            }
        }
    }
    res
}

/// Whether the delivery names an event other than `ping`.
pub fn validate_event(headers: &Headers) -> (res: Result<bool, Error>)
    ensures
        res == Ok::<bool, Error>(event_calls_for_redeploy(headers@)),
{
    match headers.get("X-GitHub-Event") {
        Some(v) => Ok(!is_ping(v)),
        None => Ok(false),
    }
}

/// `Ok(true)` when a signed delivery calls for a redeployment, `Ok(false)`
/// for a signed `ping` or a delivery without event, an error for a
/// delivery that is not signed.
pub fn validate_call(headers: &Headers, payload: &[u8], config: &Config) -> (res: Result<bool, Error>)
    ensures
        res == if signature_valid(headers@, payload@, config.secret@) {
            Ok::<bool, Error>(event_calls_for_redeploy(headers@))
        } else {
            Err::<bool, Error>(Error::InvalidSignature)
        },
{
    if let Err(e) = validate_signature(headers, payload, config) {
        return Err(e);
    }
    validate_event(headers)
}

} // verus!
