//! What the control task promises over several inputs and requests.
use crate::error::DeployError;
use crate::flow::ConnectStmt;
use crate::msg::{ConnectorResult, InstanceState, Msg, StatusReport};
use crate::registry::Instances;
use crate::task::{
    asked, drain_plan, handed_out, informed, law_informed_valid, law_received_valid, notices,
    notifying, pause_plan, received, resume_plan, settled, sound, start_group, start_plan,
    stop_plan, valid, Action, Command, Input, Kind, Notice, Pending, Process, TaskView,
    WaitingView, Work,
};
use crate::topology::{
    connectors_known, law_topology_is_complete, lists_addresses, topology_of, TopologyView,
};
use crate::topology_laws::{lemma_lists_all, lists_all};
use async_std::channel::Sender;
use vstd::prelude::*;

verus! {

/// The task after its next requests have been handed out and went as
/// `outcomes` say.
pub open spec fn performed(m: TaskView, outcomes: Seq<Result<(), DeployError>>) -> TaskView
    decreases outcomes.len(),
{
    if outcomes.len() == 0 || m.queue.len() == 0 {
        m
    } else {
        performed(informed(handed_out(m), outcomes[0]), outcomes.skip(1))
    }
}

pub open spec fn all_ok(outcomes: Seq<Result<(), DeployError>>) -> bool {
    forall|i: int| 0 <= i < outcomes.len() ==> (#[trigger] outcomes[i]) is Ok
}

/// `action` asks a connector to take part in `process`.
pub open spec fn takes_part(action: Action, process: Process) -> bool {
    match process {
        Process::Drain => action matches Action::Ask(Kind::Connector, Command::Drain, _),
        Process::Stop => action matches Action::Ask(Kind::Connector, Command::Stop, _),
    }
}

/// Whether no request of this work may fail.
pub open spec fn brooks_no_failure(work: Work) -> bool {
    work is Starting || work is Pausing || work is Resuming
}

/// How many of the requests `plan` to take part in `process` went well.
pub open spec fn accepted(
    plan: Seq<Action>,
    outcomes: Seq<Result<(), DeployError>>,
    process: Process,
) -> int
    decreases plan.len(),
{
    if plan.len() == 0 || outcomes.len() == 0 {
        0
    } else {
        (if takes_part(plan[0], process) && outcomes[0] is Ok {
            1int
        } else {
            0int
        }) + accepted(plan.skip(1), outcomes.skip(1), process)
    }
}

/// The task between two inputs.
pub open spec fn at_rest(m: TaskView) -> bool {
    valid(m) && m.work == Work::Idle
}

/// The task after all requests of `plan` have gone as `outcomes` say, but for
/// settling.
pub open spec fn all_made(
    m: TaskView,
    plan: Seq<Action>,
    outcomes: Seq<Result<(), DeployError>>,
) -> TaskView {
    TaskView {
        queue: Seq::empty(),
        drains: WaitingView {
            expected: m.drains.expected + accepted(plan, outcomes, Process::Drain),
            ..m.drains
        },
        stops: WaitingView {
            expected: m.stops.expected + accepted(plan, outcomes, Process::Stop),
            ..m.stops
        },
        ..m
    }
}

/// Once all requests of a piece of work have been made, the task has settled,
/// and every connector that took a request to drain or to stop is counted.
/// A start, a pause or a resumption gets there if every request goes well,
/// any other work whatever happens.
pub proof fn law_work_completes(m: TaskView, outcomes: Seq<Result<(), DeployError>>)
    requires
        valid(m),
        m.pending == Pending::Nothing,
        m.queue.len() > 0,
        outcomes.len() == m.queue.len(),
        brooks_no_failure(m.work) ==> all_ok(outcomes),
    ensures
        performed(m, outcomes) == settled(all_made(m, m.queue, outcomes)),
    decreases m.queue.len(),
{
    let next = informed(handed_out(m), outcomes[0]);
    let rest = outcomes.skip(1);
    let counted = TaskView {
        queue: m.queue.skip(1),
        ..all_made(m, m.queue.take(1), outcomes.take(1))
    };
    assert(m.queue.take(1).skip(1).len() == 0);
    assert(m.queue.take(1)[0] == m.queue[0]);
    reveal_with_fuel(accepted, 2);
    assert(next == settled(counted));
    if m.queue.len() == 1 {
        assert(m.queue.skip(1) =~= Seq::<Action>::empty());
        assert(performed(next, rest) == next);
    } else {
        assert(next == counted);
        assert forall|i: int| 0 <= i < rest.len() && brooks_no_failure(m.work) implies (
        #[trigger] rest[i]) is Ok by {
            assert(rest[i] == outcomes[i + 1]);
        }
        law_informed_valid(m, outcomes[0]);
        law_informed_valid(handed_out(m), outcomes[0]);
        law_work_completes(next, rest);
    }
}

/// The first request that fails while the flow is started, paused or resumed
/// ends the task with its error. None after it is made, and the state of the
/// flow is what it was.
pub proof fn law_failure_ends_task(
    m: TaskView,
    outcomes: Seq<Result<(), DeployError>>,
    k: int,
    error: DeployError,
)
    requires
        valid(m),
        m.pending == Pending::Nothing,
        brooks_no_failure(m.work),
        0 <= k < m.queue.len(),
        k < outcomes.len(),
        all_ok(outcomes.take(k)),
        outcomes[k] == Err::<(), DeployError>(error),
    ensures
        performed(m, outcomes) == (TaskView {
            work: Work::Ended,
            queue: Seq::empty(),
            result: Err(error),
            ..m
        }),
    decreases k,
{
    let next = informed(handed_out(m), outcomes[0]);
    let rest = outcomes.skip(1);
    if k == 0 {
        assert(next.queue.len() == 0);
        assert(performed(next, rest) == next);
    } else {
        assert(outcomes.take(k)[0] is Ok);
        assert(next == TaskView { queue: m.queue.skip(1), ..m });
        assert forall|i: int| 0 <= i < rest.take(k - 1).len() implies (
        #[trigger] rest.take(k - 1)[i]) is Ok by {
            assert(rest.take(k - 1)[i] == outcomes.take(k)[i + 1]);
        }
        law_failure_ends_task(next, rest, k - 1, error);
    }
}

/// No request of `plan` is one to take part in `process`.
spec fn without(plan: Seq<Action>, process: Process) -> bool {
    forall|i: int|
        0 <= i < plan.len() ==> !takes_part(#[trigger] plan[i], process)
}

proof fn lemma_none_accepted(
    plan: Seq<Action>,
    outcomes: Seq<Result<(), DeployError>>,
    process: Process,
)
    requires
        without(plan, process),
    ensures
        accepted(plan, outcomes, process) == 0,
    decreases plan.len(),
{
    if plan.len() > 0 && outcomes.len() > 0 {
        lemma_none_accepted(plan.skip(1), outcomes.skip(1), process);
    }
}

proof fn lemma_plain_work(
    m: TaskView,
    work: Work,
    plan: Seq<Action>,
    outcomes: Seq<Result<(), DeployError>>,
)
    requires
        at_rest(m),
        work != Work::Idle,
        work != Work::Ended,
        !(work is Asking),
        sound(TaskView { work, queue: plan, ..m }),
        without(plan, Process::Drain),
        without(plan, Process::Stop),
        outcomes.len() == plan.len(),
        brooks_no_failure(work) ==> all_ok(outcomes),
    ensures
        performed(settled(TaskView { work, queue: plan, ..m }), outcomes) == settled(
            TaskView { work, queue: Seq::empty(), ..m },
        ),
{
    let at_work = TaskView { work, queue: plan, ..m };
    if plan.len() > 0 {
        lemma_none_accepted(plan, outcomes, Process::Drain);
        lemma_none_accepted(plan, outcomes, Process::Stop);
        law_work_completes(at_work, outcomes);
        assert(all_made(at_work, plan, outcomes) == TaskView { work, queue: Seq::empty(), ..m });
    } else {
        assert(plan =~= Seq::<Action>::empty());
    }
}

/// A start whose requests all go well leaves the flow running, and nothing
/// else about the task changed.
pub proof fn law_start_runs(m: TaskView, outcomes: Seq<Result<(), DeployError>>)
    requires
        at_rest(m),
        m.state == InstanceState::Initialized,
        outcomes.len() == start_plan(m.topology).len(),
        all_ok(outcomes),
    ensures
        received(m, Input::Msg(Msg::Start)).queue == start_plan(m.topology),
        performed(received(m, Input::Msg(Msg::Start)), outcomes) == (TaskView {
            state: InstanceState::Running,
            ..m
        }),
{
    lemma_plain_work(m, Work::Starting, start_plan(m.topology), outcomes);
    assert(start_plan(m.topology).len() > 0);
    assert(m.queue =~= Seq::<Action>::empty());
}

/// A pause whose requests all go well leaves the flow paused, and nothing
/// else about the task changed.
pub proof fn law_pause_pauses(m: TaskView, outcomes: Seq<Result<(), DeployError>>)
    requires
        at_rest(m),
        m.state == InstanceState::Running,
        outcomes.len() == pause_plan(m.topology).len(),
        all_ok(outcomes),
    ensures
        received(m, Input::Msg(Msg::Pause)).queue == pause_plan(m.topology),
        performed(received(m, Input::Msg(Msg::Pause)), outcomes) == (TaskView {
            state: InstanceState::Paused,
            ..m
        }),
{
    lemma_plain_work(m, Work::Pausing, pause_plan(m.topology), outcomes);
    assert(m.queue =~= Seq::<Action>::empty());
}

/// A resumption whose requests all go well leaves the flow running, and
/// nothing else about the task changed.
pub proof fn law_resume_runs(m: TaskView, outcomes: Seq<Result<(), DeployError>>)
    requires
        at_rest(m),
        m.state == InstanceState::Paused,
        outcomes.len() == resume_plan(m.topology).len(),
        all_ok(outcomes),
    ensures
        received(m, Input::Msg(Msg::Resume)).queue == resume_plan(m.topology),
        performed(received(m, Input::Msg(Msg::Resume)), outcomes) == (TaskView {
            state: InstanceState::Running,
            ..m
        }),
{
    lemma_plain_work(m, Work::Resuming, resume_plan(m.topology), outcomes);
    assert(m.queue =~= Seq::<Action>::empty());
}

/// The task after a control message whose requests all went well.
pub open spec fn obeyed(m: TaskView, msg: Msg) -> TaskView {
    let at_work = received(m, Input::Msg(msg));
    performed(at_work, Seq::new(at_work.queue.len(), |i: int| Ok::<(), DeployError>(())))
}

/// The requests that the control messages `msgs` lead to, one message after
/// the other, where all go well.
pub open spec fn requests_of(m: TaskView, msgs: Seq<Msg>) -> Seq<Action>
    decreases msgs.len(),
{
    if msgs.len() == 0 {
        Seq::empty()
    } else {
        received(m, Input::Msg(msgs[0])).queue + requests_of(obeyed(m, msgs[0]), msgs.skip(1))
    }
}

/// A flow that is started, paused and resumed is asked to start, to pause and
/// to resume, in this order, and runs in the end.
pub proof fn law_start_pause_resume(m: TaskView)
    requires
        at_rest(m),
        m.state == InstanceState::Initialized,
    ensures
        requests_of(m, seq![Msg::Start, Msg::Pause, Msg::Resume]) == start_plan(m.topology)
            + pause_plan(m.topology) + resume_plan(m.topology),
        obeyed(m, Msg::Start) == (TaskView { state: InstanceState::Running, ..m }),
        obeyed(obeyed(m, Msg::Start), Msg::Pause) == (TaskView {
            state: InstanceState::Paused,
            ..m
        }),
        obeyed(obeyed(obeyed(m, Msg::Start), Msg::Pause), Msg::Resume) == (TaskView {
            state: InstanceState::Running,
            ..m
        }),
{
    let t = m.topology;
    let fine = |n: nat| Seq::new(n, |i: int| Ok::<(), DeployError>(()));
    assert(received(m, Input::Msg(Msg::Start)).queue.len() == start_plan(t).len());
    law_start_runs(m, fine(start_plan(t).len()));
    let running = TaskView { state: InstanceState::Running, ..m };
    law_pause_pauses(running, fine(pause_plan(t).len()));
    let paused = TaskView { state: InstanceState::Paused, ..m };
    law_resume_runs(paused, fine(resume_plan(t).len()));
    let msgs = seq![Msg::Start, Msg::Pause, Msg::Resume];
    assert(msgs.skip(1) =~= seq![Msg::Pause, Msg::Resume]);
    assert(msgs.skip(1).skip(1) =~= seq![Msg::Resume]);
    assert(msgs.skip(1).skip(1).skip(1).len() == 0);
    reveal_with_fuel(requests_of, 4);
    assert(requests_of(m, msgs) =~= start_plan(t) + pause_plan(t) + resume_plan(t));
}

/// The message that asks for `process`.
pub open spec fn request_for(process: Process, sender: Sender<Notice>) -> Msg {
    match process {
        Process::Drain => Msg::Drain(sender),
        Process::Stop => Msg::Stop(sender),
    }
}

/// The requests that `process` takes.
pub open spec fn plan_for(process: Process, t: TopologyView) -> Seq<Action> {
    match process {
        Process::Drain => drain_plan(t),
        Process::Stop => stop_plan(t),
    }
}

/// The answer of a connector that it is through with `process`.
pub open spec fn answer_to(process: Process, result: ConnectorResult) -> Input {
    match process {
        Process::Drain => Input::DrainResult(result),
        Process::Stop => Input::StopResult(result),
    }
}

/// After a request to drain or to stop has gone round, whatever came of it,
/// as many answers more are expected as connectors took the request, and the
/// sender is the last of those to be notified. Where no answer is expected,
/// the process is done and they are notified.
pub proof fn law_request_goes_round(
    m: TaskView,
    process: Process,
    sender: Sender<Notice>,
    outcomes: Seq<Result<(), DeployError>>,
)
    requires
        at_rest(m),
        process == Process::Drain ==> m.state != InstanceState::Draining,
        outcomes.len() == plan_for(process, m.topology).len(),
    ensures
        ({
            let waiting = WaitingView {
                expected: m.waiting(process).expected + accepted(
                    plan_for(process, m.topology),
                    outcomes,
                    process,
                ),
                senders: m.waiting(process).senders.push(sender),
            };
            let after = m.with_waiting(process, waiting);
            let made = performed(received(m, Input::Msg(request_for(process, sender))), outcomes);
            if waiting.expected == 0 {
                made == notifying(after, process)
            } else {
                made == after
            }
        }),
        valid(performed(received(m, Input::Msg(request_for(process, sender))), outcomes)),
{
    let input = Input::Msg(request_for(process, sender));
    let plan = plan_for(process, m.topology);
    let other = match process {
        Process::Drain => Process::Stop,
        Process::Stop => Process::Drain,
    };
    assert(without(plan, other));
    lemma_none_accepted(plan, outcomes, other);
    assert(m.queue =~= Seq::<Action>::empty());
    law_received_valid(m, input);
    let begun = received(m, input);
    lemma_performed_valid(begun, outcomes);
    if plan.len() > 0 {
        assert(begun.queue == plan);
        law_work_completes(begun, outcomes);
    } else {
        assert(plan =~= Seq::<Action>::empty());
        assert(performed(begun, outcomes) == begun);
    }
}

proof fn lemma_performed_valid(m: TaskView, outcomes: Seq<Result<(), DeployError>>)
    requires
        valid(m),
        m.pending == Pending::Nothing,
    ensures
        valid(performed(m, outcomes)),
        performed(m, outcomes).pending == Pending::Nothing,
    decreases outcomes.len(),
{
    if outcomes.len() > 0 && m.queue.len() > 0 {
        law_informed_valid(m, outcomes[0]);
        law_informed_valid(handed_out(m), outcomes[0]);
        lemma_performed_valid(informed(handed_out(m), outcomes[0]), outcomes.skip(1));
    }
}

/// The task after connectors have answered that they are through with
/// `process`, with nothing else in between.
pub open spec fn answers_received(
    m: TaskView,
    process: Process,
    results: Seq<ConnectorResult>,
) -> TaskView
    decreases results.len(),
{
    if results.len() == 0 {
        m
    } else {
        received(
            answers_received(m, process, results.drop_last()),
            answer_to(process, results.last()),
        )
    }
}

/// As long as a connector is still to answer, whatever the answers were,
/// nobody is notified that the process is done.
pub proof fn law_no_early_notice(m: TaskView, process: Process, results: Seq<ConnectorResult>)
    requires
        at_rest(m),
        results.len() == 0 || results.len() < m.waiting(process).expected,
    ensures
        answers_received(m, process, results) == m.with_waiting(
            process,
            WaitingView {
                expected: m.waiting(process).expected - results.len(),
                ..m.waiting(process)
            },
        ),
    decreases results.len(),
{
    if results.len() > 0 {
        law_no_early_notice(m, process, results.drop_last());
    }
}

/// With the last answer that was expected, everybody who asked for the
/// process is notified, once and in the order of asking.
pub proof fn law_last_answer_notifies(
    m: TaskView,
    process: Process,
    results: Seq<ConnectorResult>,
)
    requires
        at_rest(m),
        m.waiting(process).expected > 0,
        results.len() == m.waiting(process).expected,
    ensures
        answers_received(m, process, results) == notifying(m, process),
{
    law_no_early_notice(m, process, results.drop_last());
}

/// A task that somebody waits for, and that would be at rest if nobody did.
pub open spec fn ready_to_notify(m: TaskView, process: Process) -> bool {
    &&& m.waiting(process).senders.len() > 0
    &&& at_rest(
        TaskView {
            work: Work::Idle,
            queue: Seq::empty(),
            ..m.with_waiting(process, WaitingView::nobody())
        },
    )
}

/// Once everybody has been notified, whether the notices got through or not,
/// nobody waits for the process any more. After a drain the task goes on;
/// after a stop it has ended without an error.
pub proof fn law_notices_complete(
    m: TaskView,
    process: Process,
    outcomes: Seq<Result<(), DeployError>>,
)
    requires
        ready_to_notify(m, process),
        outcomes.len() == m.waiting(process).senders.len(),
    ensures
        performed(notifying(m, process), outcomes) == (TaskView {
            work: match process {
                Process::Drain => Work::Idle,
                Process::Stop => Work::Ended,
            },
            queue: Seq::empty(),
            ..m.with_waiting(process, WaitingView::nobody())
        }),
        performed(notifying(m, process), outcomes).result == Ok::<(), DeployError>(()),
{
    let rested = TaskView {
        work: Work::Idle,
        queue: Seq::empty(),
        ..m.with_waiting(process, WaitingView::nobody())
    };
    let plan = notices(process, m.waiting(process).senders);
    lemma_plain_work(rested, Work::Notifying(process), plan, outcomes);
    assert(notifying(m, process) == TaskView {
        work: Work::Notifying(process),
        queue: plan,
        ..rested
    });
}

/// Who asks for a drain or a stop is notified when it is done: when, of the
/// connectors that took the request, the last has answered, or at once where
/// there is nobody to answer, and not before.
pub proof fn law_sender_is_notified(
    m: TaskView,
    process: Process,
    sender: Sender<Notice>,
    outcomes: Seq<Result<(), DeployError>>,
    results: Seq<ConnectorResult>,
)
    requires
        at_rest(m),
        process == Process::Drain ==> m.state != InstanceState::Draining,
        outcomes.len() == plan_for(process, m.topology).len(),
        results.len() <= m.waiting(process).expected + accepted(
            plan_for(process, m.topology),
            outcomes,
            process,
        ),
    ensures
        ({
            let expected = m.waiting(process).expected + accepted(
                plan_for(process, m.topology),
                outcomes,
                process,
            );
            let made = performed(received(m, Input::Msg(request_for(process, sender))), outcomes);
            let after = answers_received(made, process, results);
            if results.len() < expected {
                after.work == Work::Idle && after.queue.len() == 0
            } else {
                &&& after.work == Work::Notifying(process)
                &&& after.queue == notices(process, m.waiting(process).senders.push(sender))
                &&& after.queue.last() == Action::Notify(process, sender)
            }
        }),
{
    law_request_goes_round(m, process, sender, outcomes);
    let made = performed(received(m, Input::Msg(request_for(process, sender))), outcomes);
    if made.work == Work::Idle {
        if results.len() < made.waiting(process).expected {
            law_no_early_notice(made, process, results);
        } else {
            law_last_answer_notifies(made, process, results);
        }
    }
}

/// Who asks a flow without connectors, or one whose connectors all refuse,
/// for a drain or a stop while nothing is expected is notified at once, and
/// after a stop the task ends.
pub proof fn law_nothing_to_wait_for(
    m: TaskView,
    process: Process,
    sender: Sender<Notice>,
    outcomes: Seq<Result<(), DeployError>>,
    sent: Result<(), DeployError>,
)
    requires
        at_rest(m),
        process == Process::Drain ==> m.state != InstanceState::Draining,
        m.waiting(process) == WaitingView::nobody(),
        outcomes.len() == plan_for(process, m.topology).len(),
        accepted(plan_for(process, m.topology), outcomes, process) == 0,
    ensures
        ({
            let made = performed(received(m, Input::Msg(request_for(process, sender))), outcomes);
            &&& made.queue == seq![Action::Notify(process, sender)]
            &&& performed(made, seq![sent]) == TaskView {
                work: match process {
                    Process::Drain => Work::Idle,
                    Process::Stop => Work::Ended,
                },
                ..m
            }
        }),
{
    law_request_goes_round(m, process, sender, outcomes);
    let waiting = WaitingView { expected: 0, senders: seq![sender] };
    assert(m.waiting(process).senders.push(sender) =~= seq![sender]);
    let after = m.with_waiting(process, waiting);
    assert(m.queue =~= Seq::<Action>::empty());
    law_notices_complete(after, process, seq![sent]);
    assert(notices(process, seq![sender]) =~= seq![Action::Notify(process, sender)]);
}

proof fn lemma_waiting_kept(
    m: TaskView,
    process: Process,
    outcomes: Seq<Result<(), DeployError>>,
)
    requires
        m.waiting(process).expected > 0,
    ensures
        performed(m, outcomes).waiting(process).senders == m.waiting(process).senders,
        performed(m, outcomes).waiting(process).expected >= m.waiting(process).expected,
    decreases outcomes.len(),
{
    if outcomes.len() > 0 && m.queue.len() > 0 {
        lemma_waiting_kept(informed(handed_out(m), outcomes[0]), process, outcomes.skip(1));
    }
}

/// While a connector is still to answer, whatever else comes in and however
/// the requests go, those who wait for the process stay in their places and
/// are not notified. It takes the last answer to notify them, and then all of
/// them are.
pub proof fn law_waiting_goes_on(
    m: TaskView,
    process: Process,
    input: Input,
    outcomes: Seq<Result<(), DeployError>>,
)
    requires
        at_rest(m),
        m.waiting(process).expected > 0,
    ensures
        if m.waiting(process).expected == 1 && match process {
            Process::Drain => input is DrainResult,
            Process::Stop => input is StopResult,
        } {
            received(m, input) == notifying(m, process)
        } else {
            let after = performed(received(m, input), outcomes).waiting(process);
            &&& m.waiting(process).senders.is_prefix_of(after.senders)
            &&& after.expected > 0
            &&& forall|i: int|
                0 <= i < received(m, input).queue.len() ==> !(#[trigger] received(
                    m,
                    input,
                ).queue[i] matches Action::Notify(done, _) && done == process)
        },
{
    if received(m, input).waiting(process).expected > 0 {
        lemma_waiting_kept(received(m, input), process, outcomes);
    }
}

/// Only a request for a process, and what connectors make of it, bears on who
/// waits for it and for how many answers.
pub proof fn law_process_is_left_alone(
    m: TaskView,
    process: Process,
    input: Input,
    outcome: Result<(), DeployError>,
)
    requires
        valid(m),
        match process {
            Process::Drain => !(input is DrainResult) && !(input matches Input::Msg(msg)
                && msg is Drain),
            Process::Stop => !(input is StopResult) && !(input matches Input::Msg(msg)
                && msg is Stop),
        },
    ensures
        m.work == Work::Idle ==> received(m, input).waiting(process) == m.waiting(process),
        handed_out(m).waiting(process) == m.waiting(process),
        m.work != Work::Asking(process) ==> informed(m, outcome).waiting(process) == m.waiting(
            process,
        ),
{
}

/// An answer that nobody expects changes nothing.
pub proof fn law_unexpected_answers_change_nothing(
    m: TaskView,
    process: Process,
    result: ConnectorResult,
)
    requires
        m.waiting(process).expected == 0,
    ensures
        received(m, answer_to(process, result)) == m,
{
}

/// A report tells the state of the flow, and asking for one changes nothing,
/// whether it gets through or not.
pub proof fn law_report_changes_nothing(
    m: TaskView,
    sender: Sender<StatusReport>,
    outcome: Result<(), DeployError>,
)
    requires
        at_rest(m),
    ensures
        received(m, Input::Msg(Msg::Report(sender))).queue == seq![
            Action::SendReport(sender, StatusReport { url: m.url, status: m.state }),
        ],
        performed(received(m, Input::Msg(Msg::Report(sender))), seq![outcome]) == m,
{
    let plan = seq![Action::SendReport(sender, StatusReport { url: m.url, status: m.state })];
    lemma_plain_work(m, Work::Reporting, plan, seq![outcome]);
    assert(m.queue =~= Seq::<Action>::empty());
}

/// A message that does not suit the state of the flow is ignored: a flow is
/// started only where it has not been, paused only where it runs, resumed only
/// where it is paused and drained only where it is not draining yet.
pub proof fn law_unsuitable_messages_are_ignored(m: TaskView, msg: Msg)
    requires
        match msg {
            Msg::Start => m.state != InstanceState::Initialized,
            Msg::Pause => m.state != InstanceState::Running,
            Msg::Resume => m.state != InstanceState::Paused,
            Msg::Drain(_) => m.state == InstanceState::Draining,
            Msg::Stop(_) | Msg::Report(_) => false,
        },
    ensures
        received(m, Input::Msg(msg)) == m,
{
}

/// Whether the state of a flow may stay `from` or go from `from` to `to` in
/// one step.
pub open spec fn may_follow(from: InstanceState, to: InstanceState) -> bool {
    ||| from == to
    ||| from == InstanceState::Initialized && to == InstanceState::Running
    ||| from == InstanceState::Running && to == InstanceState::Paused
    ||| from == InstanceState::Paused && to == InstanceState::Running
}

/// Whatever comes in and however requests go, a flow that is initialized can
/// only come to run, one that runs can only come to be paused, and one that is
/// paused can only come to run again. No flow comes to the state in which a
/// request to drain is ignored.
pub proof fn law_states(m: TaskView, input: Input, outcome: Result<(), DeployError>)
    requires
        valid(m),
    ensures
        m.work == Work::Idle ==> may_follow(m.state, received(m, input).state),
        handed_out(m).state == m.state,
        may_follow(m.state, informed(m, outcome).state),
{
}

/// Whatever comes in and however requests go, the task stays with its flow
/// and its url.
pub proof fn law_flow_is_fixed(m: TaskView, input: Input, outcome: Result<(), DeployError>)
    ensures
        received(m, input).topology == m.topology,
        handed_out(m).topology == m.topology,
        informed(m, outcome).topology == m.topology,
        received(m, input).url == m.url,
        handed_out(m).url == m.url,
        informed(m, outcome).url == m.url,
{
}

/// All pipelines are started before any connector is.
pub proof fn law_pipelines_start_first(t: TopologyView, i: int, j: int, p: u64, c: u64)
    requires
        0 <= i < start_plan(t).len(),
        0 <= j < start_plan(t).len(),
        start_plan(t)[i] == Action::Ask(Kind::Pipeline, Command::Start, p),
        start_plan(t)[j] == Action::Ask(Kind::Connector, Command::Start, c),
    ensures
        i < j,
{
    assert(forall|group: Seq<u64>, k: int|
        0 <= k < start_group(group).len() ==> #[trigger] start_group(group)[k] != Action::Ask(
            Kind::Pipeline,
            Command::Start,
            p,
        ));
}

/// The plan that starts a flow, cut at the points where all connectors
/// started so far have answered: the sinks are up before anything that also
/// is a source is started, and everything that is fed is up before anything
/// that only feeds is started.
pub proof fn law_sinks_start_before_sources(t: TopologyView)
    ensures
        ({
            let plan = start_plan(t);
            let ends = (t.pipelines.len() + t.end_points.len()) as int;
            let mixed = ends + 1 + t.mixed_pickles.len();
            let starts = mixed + 1 + t.start_points.len();
            &&& plan.len() == starts + 1 + t.unlinked.len() + 1
            &&& plan[ends] == Action::AwaitStarted(t.end_points.len() as usize)
            &&& plan[mixed] == Action::AwaitStarted(t.mixed_pickles.len() as usize)
            &&& plan[starts] == Action::AwaitStarted(t.start_points.len() as usize)
            &&& plan.last() == Action::AwaitStarted(t.unlinked.len() as usize)
            &&& plan.subrange(t.pipelines.len() as int, ends) == asked(
                Kind::Connector,
                Command::Start,
                t.end_points,
            )
            &&& plan.subrange(ends + 1, mixed) == asked(
                Kind::Connector,
                Command::Start,
                t.mixed_pickles,
            )
            &&& plan.subrange(mixed + 1, starts) == asked(
                Kind::Connector,
                Command::Start,
                t.start_points,
            )
        }),
{
    let plan = start_plan(t);
    let ends = (t.pipelines.len() + t.end_points.len()) as int;
    let mixed = ends + 1 + t.mixed_pickles.len();
    let starts = mixed + 1 + t.start_points.len();
    let start = |group: Seq<u64>| asked(Kind::Connector, Command::Start, group);
    assert(plan.subrange(t.pipelines.len() as int, ends) =~= start(t.end_points));
    assert(plan.subrange(ends + 1, mixed) =~= start(t.mixed_pickles));
    assert(plan.subrange(mixed + 1, starts) =~= start(t.start_points));
}

/// The groups of connectors of a flow, from its sources to its sinks, after
/// what is not linked.
pub open spec fn downstream(t: TopologyView) -> Seq<Seq<u64>> {
    seq![t.unlinked, t.start_points, t.mixed_pickles, t.end_points]
}

/// A flow is paused downstream, with the pipelines last, and resumed in the
/// reverse order of groups, with the pipelines first.
pub proof fn law_resume_reverses_pause(t: TopologyView)
    ensures
        pause_plan(t) == asked(Kind::Connector, Command::Pause, downstream(t).flatten()) + asked(
            Kind::Pipeline,
            Command::Pause,
            t.pipelines,
        ),
        resume_plan(t) == asked(Kind::Pipeline, Command::Resume, t.pipelines) + asked(
            Kind::Connector,
            Command::Resume,
            downstream(t).reverse().flatten(),
        ),
{
    lemma_flatten_four(t.unlinked, t.start_points, t.mixed_pickles, t.end_points);
    lemma_flatten_four(t.end_points, t.mixed_pickles, t.start_points, t.unlinked);
    assert(downstream(t).reverse() =~= seq![
        t.end_points,
        t.mixed_pickles,
        t.start_points,
        t.unlinked,
    ]);
}

proof fn lemma_flatten_four(a: Seq<u64>, b: Seq<u64>, c: Seq<u64>, d: Seq<u64>)
    ensures
        seq![a, b, c, d].flatten() == a + b + c + d,
{
    let all = seq![a, b, c, d];
    assert(all.drop_first() =~= seq![b, c, d]);
    assert(all.drop_first().drop_first() =~= seq![c, d]);
    assert(all.drop_first().drop_first().drop_first() =~= seq![d]);
    assert(all.drop_first().drop_first().drop_first().drop_first().len() == 0);
    reveal_with_fuel(Seq::<_>::flatten, 5);
    assert(all.flatten() =~= a + b + c + d);
}

/// The requests of `plan` that ask instances of this kind, as the addresses
/// asked.
pub open spec fn addresses_asked(plan: Seq<Action>, kind: Kind, command: Command) -> Seq<u64>
    decreases plan.len(),
{
    if plan.len() == 0 {
        Seq::empty()
    } else {
        let before = addresses_asked(plan.drop_last(), kind, command);
        match plan.last() {
            Action::Ask(k, c, address) => if k == kind && c == command {
                before.push(address)
            } else {
                before
            },
            _ => before,
        }
    }
}

proof fn lemma_asked_in_row(one: Seq<Action>, other: Seq<Action>, kind: Kind, command: Command)
    ensures
        addresses_asked(one + other, kind, command) == addresses_asked(one, kind, command)
            + addresses_asked(other, kind, command),
    decreases other.len(),
{
    if other.len() == 0 {
        assert(one + other =~= one);
    } else {
        lemma_asked_in_row(one, other.drop_last(), kind, command);
        assert((one + other).drop_last() =~= one + other.drop_last());
        assert(addresses_asked(one + other, kind, command) =~= addresses_asked(one, kind, command)
            + addresses_asked(other, kind, command));
    }
}

proof fn lemma_asked_group(k: Kind, c: Command, group: Seq<u64>, kind: Kind, command: Command)
    ensures
        addresses_asked(asked(k, c, group), kind, command) == if k == kind && c == command {
            group
        } else {
            Seq::empty()
        },
    decreases group.len(),
{
    if group.len() > 0 {
        lemma_asked_group(k, c, group.drop_last(), kind, command);
        assert(asked(k, c, group).drop_last() =~= asked(k, c, group.drop_last()));
        if k == kind && c == command {
            assert(group =~= group.drop_last().push(group.last()));
        }
    } else if k == kind && c == command {
        assert(group =~= Seq::empty());
    }
}

proof fn lemma_asked_start_group(group: Seq<u64>, kind: Kind)
    ensures
        addresses_asked(start_group(group), kind, Command::Start) == if kind == Kind::Connector {
            group
        } else {
            Seq::empty()
        },
{
    lemma_asked_group(Kind::Connector, Command::Start, group, kind, Command::Start);
    assert(start_group(group).drop_last() =~= asked(Kind::Connector, Command::Start, group));
}

/// The requests that `command` takes.
pub open spec fn plan_of(command: Command, t: TopologyView) -> Seq<Action> {
    match command {
        Command::Start => start_plan(t),
        Command::Pause => pause_plan(t),
        Command::Resume => resume_plan(t),
        Command::Drain => drain_plan(t),
        Command::Stop => stop_plan(t),
    }
}

proof fn lemma_who_is_asked(command: Command, t: TopologyView)
    ensures
        addresses_asked(plan_of(command, t), Kind::Connector, command).to_multiset()
            == t.connectors().to_multiset(),
        command != Command::Drain ==> addresses_asked(
            plan_of(command, t),
            Kind::Pipeline,
            command,
        ) == t.pipelines,
{
    let pipelines = asked(Kind::Pipeline, command, t.pipelines);
    assert forall|kind: Kind, group: Seq<u64>|
        #![trigger asked(kind, command, group)]
        addresses_asked(asked(kind, command, group), Kind::Connector, command) == (if kind
            == Kind::Connector {
            group
        } else {
            Seq::<u64>::empty()
        }) && addresses_asked(asked(kind, command, group), Kind::Pipeline, command) == (if kind
            == Kind::Pipeline {
            group
        } else {
            Seq::<u64>::empty()
        }) by {
        lemma_asked_group(kind, command, group, Kind::Connector, command);
        lemma_asked_group(kind, command, group, Kind::Pipeline, command);
    }
    let (a, b, c, d) = (t.start_points, t.mixed_pickles, t.end_points, t.unlinked);
    lemma_same_members(a, b, c, d);
    match command {
        Command::Start => {
            let p = asked(Kind::Pipeline, Command::Start, t.pipelines);
            let plan1 = p + start_group(c);
            let plan2 = plan1 + start_group(b);
            let plan3 = plan2 + start_group(a);
            assert forall|kind: Kind| true implies #[trigger] addresses_asked(
                start_plan(t),
                kind,
                Command::Start,
            ) == addresses_asked(p, kind, Command::Start) + (if kind == Kind::Connector {
                c + b + a + d
            } else {
                Seq::empty()
            }) by {
                lemma_asked_in_row(p, start_group(c), kind, Command::Start);
                lemma_asked_in_row(plan1, start_group(b), kind, Command::Start);
                lemma_asked_in_row(plan2, start_group(a), kind, Command::Start);
                lemma_asked_in_row(plan3, start_group(d), kind, Command::Start);
                lemma_asked_start_group(a, kind);
                lemma_asked_start_group(b, kind);
                lemma_asked_start_group(c, kind);
                lemma_asked_start_group(d, kind);
                let all = addresses_asked(start_plan(t), kind, Command::Start);
                let first = addresses_asked(p, kind, Command::Start);
                if kind == Kind::Connector {
                    assert(all =~= first + (c + b + a + d));
                } else {
                    assert(all =~= first + Seq::<u64>::empty());
                }
            }
            assert(addresses_asked(start_plan(t), Kind::Connector, Command::Start) =~= c + b + a
                + d);
            assert(addresses_asked(start_plan(t), Kind::Pipeline, Command::Start)
                =~= t.pipelines);
        },
        Command::Pause => {
            let group = d + a + b + c;
            let connectors = asked(Kind::Connector, Command::Pause, group);
            lemma_asked_in_row(connectors, pipelines, Kind::Connector, command);
            lemma_asked_in_row(connectors, pipelines, Kind::Pipeline, command);
            assert(addresses_asked(pause_plan(t), Kind::Connector, command) =~= group);
            assert(addresses_asked(pause_plan(t), Kind::Pipeline, command) =~= t.pipelines);
        },
        Command::Resume => {
            let group = c + b + a + d;
            let connectors = asked(Kind::Connector, Command::Resume, group);
            lemma_asked_in_row(pipelines, connectors, Kind::Connector, command);
            lemma_asked_in_row(pipelines, connectors, Kind::Pipeline, command);
            assert(addresses_asked(resume_plan(t), Kind::Connector, command) =~= group);
            assert(addresses_asked(resume_plan(t), Kind::Pipeline, command) =~= t.pipelines);
        },
        Command::Drain => {},
        Command::Stop => {
            let group = c + a + b + d;
            let connectors = asked(Kind::Connector, Command::Stop, group);
            lemma_asked_in_row(connectors, pipelines, Kind::Connector, command);
            lemma_asked_in_row(connectors, pipelines, Kind::Pipeline, command);
            assert(addresses_asked(stop_plan(t), Kind::Connector, command) =~= group);
            assert(addresses_asked(stop_plan(t), Kind::Pipeline, command) =~= t.pipelines);
        },
    }
}

proof fn lemma_same_members(a: Seq<u64>, b: Seq<u64>, c: Seq<u64>, d: Seq<u64>)
    ensures
        (c + b + a + d).to_multiset() == (a + b + c + d).to_multiset(),
        (d + a + b + c).to_multiset() == (a + b + c + d).to_multiset(),
        (c + a + b + d).to_multiset() == (a + b + c + d).to_multiset(),
{
    lemma_members_of_four(a, b, c, d);
    lemma_members_of_four(c, b, a, d);
    lemma_members_of_four(d, a, b, c);
    lemma_members_of_four(c, a, b, d);
    let all = (a + b + c + d).to_multiset();
    assert((c + b + a + d).to_multiset() =~= all);
    assert((d + a + b + c).to_multiset() =~= all);
    assert((c + a + b + d).to_multiset() =~= all);
}

proof fn lemma_members_of_four(a: Seq<u64>, b: Seq<u64>, c: Seq<u64>, d: Seq<u64>)
    ensures
        (a + b + c + d).to_multiset() == a.to_multiset().add(b.to_multiset()).add(
            c.to_multiset(),
        ).add(d.to_multiset()),
{
    vstd::seq_lib::lemma_multiset_commutative(a, b);
    vstd::seq_lib::lemma_multiset_commutative(a + b, c);
    vstd::seq_lib::lemma_multiset_commutative(a + b + c, d);
}

/// A control message reaches all contained instances: whatever is to be done,
/// each connector that runs, linked or not, is asked exactly once, and each
/// pipeline exactly once. A flow is drained through its connectors alone.
pub proof fn law_everyone_is_asked_once(
    t: TopologyView,
    command: Command,
    pipelines: Instances,
    connectors: Instances,
    links: Seq<ConnectStmt>,
)
    requires
        topology_of(t, pipelines, connectors, links),
        connectors_known(connectors, links),
    ensures
        exists|all: Seq<u64>| #[trigger]
            lists_addresses(connectors, all) && addresses_asked(
                plan_of(command, t),
                Kind::Connector,
                command,
            ).to_multiset() == all.to_multiset(),
        command != Command::Drain ==> lists_addresses(
            pipelines,
            addresses_asked(plan_of(command, t), Kind::Pipeline, command),
        ),
        exists|all: Seq<u64>| #[trigger]
            lists_all(connectors, all) && addresses_asked(
                plan_of(command, t),
                Kind::Connector,
                command,
            ).to_multiset() == all.to_multiset(),
        command != Command::Drain ==> lists_all(
            pipelines,
            addresses_asked(plan_of(command, t), Kind::Pipeline, command),
        ),
        addresses_asked(drain_plan(t), Kind::Pipeline, Command::Drain).len() == 0,
{
    law_topology_is_complete(t, pipelines, connectors, links);
    lemma_who_is_asked(command, t);
    lemma_lists_all(connectors, t.connectors());
    lemma_lists_all(pipelines, t.pipelines);
    lemma_asked_group(
        Kind::Connector,
        Command::Drain,
        t.start_points + t.mixed_pickles + t.end_points + t.unlinked,
        Kind::Pipeline,
        Command::Drain,
    );
    assert(lists_all(connectors, t.connectors()));
    assert(lists_addresses(connectors, t.connectors()));
}

} // verus!
