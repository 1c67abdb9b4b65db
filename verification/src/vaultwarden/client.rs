//! What the client makes of the answers of the vault.

use crate::error::Error;
use vstd::prelude::*;

verus! {

/// The seconds that a request may take.
pub const REQUEST_TIMEOUT_SECONDS: u64 = 30;

/// The number of times a request is sent again after the vault asked to slow
/// down.
pub const MAX_RATE_LIMIT_RETRIES: u32 = 5;

/// What is to be done with an answer of the vault.
#[derive(Clone, Copy, Debug, PartialEq, Eq, Structural)]
pub enum ResponseDecision {
    /// The request succeeded.
    Success,
    /// The request is to be sent again after so many seconds.
    RetryAfter { seconds: u64 },
    /// The call has failed.
    Fail(Error),
}

/// What is to be done with an answer of the given status, after the request
/// has been sent again `retries` times.
///
/// A status from 200 to 299 is a success. 401 means that the caller must
/// sign in again, and fails the call. 404 is handed on as "not found": the
/// caller decides. On 429 the request is sent again, after 2 seconds the
/// first time, 4 the second, and so on, and fails after 5 retries. Any other
/// status from 500 to 599 is tried once more, and fails then. Everything
/// else fails.
pub open spec fn response_decision_spec(status: u16, retries: u32) -> ResponseDecision {
    if 200 <= status <= 299 {
        ResponseDecision::Success
    } else if status == 401 {
        ResponseDecision::Fail(Error::Unauthorized)
    } else if status == 404 {
        ResponseDecision::Fail(Error::NotFound)
    } else if status == 429 {
        if retries >= MAX_RATE_LIMIT_RETRIES {
            ResponseDecision::Fail(Error::RateLimited)
        } else {
            ResponseDecision::RetryAfter { seconds: ((retries + 1) * 2) as u64 }
        }
    } else if 500 <= status <= 599 && retries == 0 {
        ResponseDecision::RetryAfter { seconds: 0 }
    } else {
        ResponseDecision::Fail(Error::RequestFailed)
    }
}

/// Decides what is to be done with an answer of the vault.
pub fn retry(status: u16, retries: u32) -> (decision: ResponseDecision)
    ensures
        decision == response_decision_spec(status, retries),
{
    if 200 <= status && status <= 299 {
        ResponseDecision::Success
    } else if status == 401 {
        ResponseDecision::Fail(Error::Unauthorized)
    } else if status == 404 {
        ResponseDecision::Fail(Error::NotFound)
    } else if status == 429 {
        if retries >= MAX_RATE_LIMIT_RETRIES {
            ResponseDecision::Fail(Error::RateLimited)
        } else {
            let n: u64 = retries as u64 + 1;
            ResponseDecision::RetryAfter { seconds: n * 2 }
        }
    } else if 500 <= status && status <= 599 && retries == 0 {
        ResponseDecision::RetryAfter { seconds: 0 }
    } else {
        ResponseDecision::Fail(Error::RequestFailed)
    }
}

/// The waits between the retries add up to at most 30 seconds: 2, 4, 6, 8
/// and 10.
pub proof fn lemma_rate_limit_waits_are_bounded(retries: u32)
    ensures
        response_decision_spec(429, retries) matches ResponseDecision::RetryAfter { seconds }
            ==> (retries < MAX_RATE_LIMIT_RETRIES && seconds == 2 * (retries + 1) && seconds <= 10),
        retries >= MAX_RATE_LIMIT_RETRIES ==> response_decision_spec(429, retries)
            == ResponseDecision::Fail(Error::RateLimited),
{
}

/// A list that the vault may leave out for want of rights: where it answers
/// "not found", the list counts as empty.
pub fn members_or_none<T>(listed: Result<Vec<T>, Error>) -> (r: Result<Vec<T>, Error>)
    ensures
        match listed {
            Ok(list) => r == Ok::<Vec<T>, Error>(list),
            Err(Error::NotFound) => (r matches Ok(list) && list@.len() == 0),
            Err(e) => r == Err::<Vec<T>, Error>(e),
        },
{
    match listed {
        Ok(list) => Ok(list),
        Err(Error::NotFound) => Ok(Vec::new()),
        Err(e) => Err(e),
    }
}

} // verus!
