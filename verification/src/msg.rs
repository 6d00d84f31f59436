//! What the control task of a deployment is told, and what it answers.
use crate::error::DeployError;
use async_std::channel::Sender;
use vstd::prelude::*;

verus! {

/// Declares `async_std::channel::Sender`. The control task keeps senders and
/// hands them on; nothing is claimed of what is inside one.
#[verifier::external_type_specification]
#[verifier::external_body]
#[verifier::reject_recursive_types(T)]
pub struct ExSender<T>(async_std::channel::Sender<T>);

/// The state of an instance.
#[derive(Debug, PartialEq, Eq, Clone, Copy, Structural)]
pub enum InstanceState {
    Initialized,
    Running,
    Paused,
    Draining,
}

/// Control Plane message accepted by each binding control plane handler
#[derive(Debug)]
pub enum Msg {
    /// start all contained instances
    Start,
    /// pause all contained instances
    Pause,
    /// resume all contained instance from pause
    Resume,
    /// stop all contained instances, and get notified via the given sender when
    /// the stop process is done
    Stop(Sender<Result<(), DeployError>>),
    /// drain all contained instances, and get notified via the given sender when
    /// the drain process is done
    Drain(Sender<Result<(), DeployError>>),
    /// request a `StatusReport` from this instance
    Report(Sender<StatusReport>),
}

/// Status Report for a Binding
#[derive(Debug, PartialEq, Eq)]
pub struct StatusReport {
    /// the url of the instance this report describes
    pub url: String,
    /// the current state
    pub status: InstanceState,
}

/// How a connector fared with what it was asked to do.
#[derive(Debug, PartialEq, Eq)]
pub struct ConnectorResult {
    /// the url of the connector
    pub url: String,
    pub res: Result<(), DeployError>,
}

/// Why a response does not count as a success: it did not arrive, or it
/// carries an error.
pub open spec fn failure_of(response: Result<ConnectorResult, String>) -> Option<DeployError> {
    match response {
        Err(reason) => Some(DeployError::Runtime(reason)),
        Ok(result) => match result.res {
            Err(error) => Some(error),
            Ok(_) => None,
        },
    }
}

/// What `responses` amount to: the failure that comes first in them, or, with
/// none, as many successes as there are responses.
pub open spec fn outcome_of(responses: Seq<Result<ConnectorResult, String>>) -> Result<
    nat,
    DeployError,
>
    decreases responses.len(),
{
    if responses.len() == 0 {
        Ok(0)
    } else {
        match (outcome_of(responses.drop_last()), failure_of(responses.last())) {
            (Err(error), _) => Err(error),
            (Ok(_), Some(error)) => Err(error),
            (Ok(n), None) => Ok(n + 1),
        }
    }
}

/// Turns the responses to a round of requests into one result.
pub fn wait_for_responses(responses: Vec<Result<ConnectorResult, String>>) -> (outcome: Result<
    Vec<()>,
    DeployError,
>)
    ensures
        match outcome {
            Ok(done) => outcome_of(responses@) == Ok::<nat, DeployError>(done@.len()),
            Err(error) => outcome_of(responses@) == Err::<nat, DeployError>(error),
        },
{
    let ghost all = responses@;
    let mut done: Vec<()> = Vec::new();
    for response in iter: responses
        invariant
            iter.seq() == all,
            outcome_of(all.take(iter.index() as int)) == Ok::<nat, DeployError>(done@.len()),
    {
        proof {
            let next = all.take(iter.index() as int + 1);
            assert(next.drop_last() =~= all.take(iter.index() as int));
            assert(next.last() == response);
            lemma_failure_stays(all, iter.index() as int + 1);
        }
        match response {
            Err(reason) => return Err(DeployError::Runtime(reason)),
            Ok(result) => match result.res {
                Err(error) => return Err(error),
                Ok(_) => done.push(()),
            },
        }
    }
    assert(all.take(all.len() as int) =~= all);
    Ok(done)
}

proof fn lemma_failure_stays(responses: Seq<Result<ConnectorResult, String>>, n: int)
    requires
        0 <= n <= responses.len(),
    ensures
        outcome_of(responses.take(n)) matches Err(error) ==> outcome_of(responses) == Err::<
            nat,
            DeployError,
        >(error),
    decreases responses.len(),
{
    if n == responses.len() {
        assert(responses.take(n) =~= responses);
    } else {
        lemma_failure_stays(responses.drop_last(), n);
        assert(responses.drop_last().take(n) =~= responses.take(n));
    }
}

/// `response` arrived and says that all went well.
pub open spec fn succeeds(response: Result<ConnectorResult, String>) -> bool {
    response matches Ok(result) && result.res is Ok
}

/// `response` did not arrive, and `error` gives the reason, or it arrived and
/// says that `error` came up.
pub open spec fn fails_with(response: Result<ConnectorResult, String>, error: DeployError) -> bool {
    match response {
        Ok(result) => result.res matches Err(reported) && reported == error,
        Err(reason) => error == DeployError::Runtime(reason),
    }
}

/// The responses amount to a success just where each of them is one. Where
/// one is not, the error is that of the first that is not.
pub proof fn law_first_failure_counts(responses: Seq<Result<ConnectorResult, String>>)
    ensures
        match outcome_of(responses) {
            Ok(n) => n == responses.len() && forall|i: int|
                0 <= i < responses.len() ==> succeeds(#[trigger] responses[i]),
            Err(error) => exists|i: int| first_failure(responses, i, error),
        },
    decreases responses.len(),
{
    if responses.len() > 0 {
        let rest = responses.drop_last();
        law_first_failure_counts(rest);
        match outcome_of(rest) {
            Ok(_) => {
                assert forall|i: int| 0 <= i < rest.len() implies succeeds(
                    #[trigger] responses[i],
                ) by {
                    assert(rest[i] == responses[i]);
                }
                if let Some(error) = failure_of(responses.last()) {
                    assert(first_failure(responses, responses.len() - 1, error));
                }
            },
            Err(error) => {
                let i = choose|i: int| first_failure(rest, i, error);
                assert forall|j: int| 0 <= j < i implies succeeds(
                    #[trigger] responses[j],
                ) by {
                    assert(rest[j] == responses[j]);
                }
                assert(first_failure(responses, i, error));
            },
        }
    }
}

/// The response at index `i` fails with `error`, and none before it fails.
pub open spec fn first_failure(
    responses: Seq<Result<ConnectorResult, String>>,
    i: int,
    error: DeployError,
) -> bool {
    &&& 0 <= i < responses.len()
    &&& fails_with(responses[i], error)
    &&& forall|j: int| 0 <= j < i ==> succeeds(#[trigger] responses[j])
}

} // verus!
