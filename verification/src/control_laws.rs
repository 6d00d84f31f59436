//! What each message, answer and outcome does to a flow, state by state.
use crate::error::DeployError;
use crate::flow::ConnectStmt;
use crate::msg::{ConnectorResult, InstanceState, Msg, StatusReport};
use crate::registry::Instances;
use crate::task::{
    drain_plan, fresh, handed_out, ignored, informed, notices, pause_plan, received, resume_plan,
    start_plan, stop_plan, valid, Action, Command, Input, Kind, Notice, Pending, Process,
    TaskView, WaitingView, Work,
};
use crate::task_laws::takes_part;
use crate::topology::TopologyView;
use async_std::channel::Sender;
use vstd::prelude::*;

verus! {

/// From index `at` on, `plan` asks the instances of `group` for `command`, one
/// after the other.
pub open spec fn asks(
    plan: Seq<Action>,
    at: int,
    kind: Kind,
    command: Command,
    group: Seq<u64>,
) -> bool {
    &&& 0 <= at
    &&& at + group.len() <= plan.len()
    &&& forall|i: int|
        0 <= i < group.len() ==> plan[at + i] == Action::Ask(kind, command, #[trigger] group[i])
}

/// `plan` sends word that `process` is done to each of `senders`, once and in
/// their order, and does nothing else.
pub open spec fn notifies(
    plan: Seq<Action>,
    process: Process,
    senders: Seq<Sender<Notice>>,
) -> bool {
    &&& plan.len() == senders.len()
    &&& forall|i: int|
        0 <= i < senders.len() ==> plan[i] == Action::Notify(process, #[trigger] senders[i])
}

/// A task that waits for an input.
pub open spec fn resting(m: TaskView) -> bool {
    m.work == Work::Idle && m.queue.len() == 0 && m.pending == Pending::Nothing
}

/// Nobody waits, and nobody is to answer.
pub open spec fn unawaited(waiting: WaitingView) -> bool {
    waiting.expected == 0 && waiting.senders.len() == 0
}

/// A task that holds to what holds at all times and has nothing to do has
/// nothing to hand out and nothing open.
pub proof fn law_idle_task_rests(m: TaskView)
    requires
        valid(m),
        m.work == Work::Idle,
    ensures
        resting(m),
        m.drains.expected >= 0,
        m.stops.expected >= 0,
        m.drains.senders.len() > 0 <==> m.drains.expected > 0,
        m.stops.senders.len() > 0 <==> m.stops.expected > 0,
        m.result is Ok,
{
}

/// How a process stands is told for that process.
pub proof fn law_processes_are_told_apart(m: TaskView, waiting: WaitingView)
    ensures
        m.waiting(Process::Drain) == m.drains,
        m.waiting(Process::Stop) == m.stops,
        m.with_waiting(Process::Drain, waiting) == (TaskView { drains: waiting, ..m }),
        m.with_waiting(Process::Stop, waiting) == (TaskView { stops: waiting, ..m }),
{
}

/// To start a flow, every pipeline is asked to start. Then the end points are
/// asked, and as many answers are awaited as there are end points; in the same
/// way what is in between, the start points and what is not linked. Nothing
/// else is done.
pub proof fn law_start_requests(t: TopologyView)
    ensures
        ({
            let plan = start_plan(t);
            let past_pipelines = 0int + t.pipelines.len();
            let past_ends = past_pipelines + t.end_points.len();
            let past_mixed = past_ends + 1 + t.mixed_pickles.len();
            let past_starts = past_mixed + 1 + t.start_points.len();
            let past_unlinked = past_starts + 1 + t.unlinked.len();
            &&& asks(plan, 0int, Kind::Pipeline, Command::Start, t.pipelines)
            &&& asks(plan, past_pipelines, Kind::Connector, Command::Start, t.end_points)
            &&& plan[past_ends] == Action::AwaitStarted(t.end_points.len() as usize)
            &&& asks(plan, past_ends + 1, Kind::Connector, Command::Start, t.mixed_pickles)
            &&& plan[past_mixed] == Action::AwaitStarted(t.mixed_pickles.len() as usize)
            &&& asks(plan, past_mixed + 1, Kind::Connector, Command::Start, t.start_points)
            &&& plan[past_starts] == Action::AwaitStarted(t.start_points.len() as usize)
            &&& asks(plan, past_starts + 1, Kind::Connector, Command::Start, t.unlinked)
            &&& plan[past_unlinked] == Action::AwaitStarted(t.unlinked.len() as usize)
            &&& plan.len() == past_unlinked + 1
        }),
{
}

/// To pause a flow, every connector is asked to pause, the start points before
/// what is in between and that before the end points, and every pipeline after
/// them. Nothing else is done.
pub proof fn law_pause_requests(t: TopologyView)
    ensures
        ({
            let plan = pause_plan(t);
            let past_unlinked = 0int + t.unlinked.len();
            let past_starts = past_unlinked + t.start_points.len();
            let past_mixed = past_starts + t.mixed_pickles.len();
            let past_ends = past_mixed + t.end_points.len();
            let past_pipelines = past_ends + t.pipelines.len();
            &&& asks(plan, 0int, Kind::Connector, Command::Pause, t.unlinked)
            &&& asks(plan, past_unlinked, Kind::Connector, Command::Pause, t.start_points)
            &&& asks(plan, past_starts, Kind::Connector, Command::Pause, t.mixed_pickles)
            &&& asks(plan, past_mixed, Kind::Connector, Command::Pause, t.end_points)
            &&& asks(plan, past_ends, Kind::Pipeline, Command::Pause, t.pipelines)
            &&& plan.len() == past_pipelines
        }),
{
}

/// To resume a flow, every pipeline is asked to resume, then every connector,
/// the end points before what is in between and that before the start points.
/// Nothing else is done.
pub proof fn law_resume_requests(t: TopologyView)
    ensures
        ({
            let plan = resume_plan(t);
            let past_pipelines = 0int + t.pipelines.len();
            let past_ends = past_pipelines + t.end_points.len();
            let past_mixed = past_ends + t.mixed_pickles.len();
            let past_starts = past_mixed + t.start_points.len();
            let past_unlinked = past_starts + t.unlinked.len();
            &&& asks(plan, 0int, Kind::Pipeline, Command::Resume, t.pipelines)
            &&& asks(plan, past_pipelines, Kind::Connector, Command::Resume, t.end_points)
            &&& asks(plan, past_ends, Kind::Connector, Command::Resume, t.mixed_pickles)
            &&& asks(plan, past_mixed, Kind::Connector, Command::Resume, t.start_points)
            &&& asks(plan, past_starts, Kind::Connector, Command::Resume, t.unlinked)
            &&& plan.len() == past_unlinked
        }),
{
}

/// To drain a flow, every connector is asked to drain, the start points before
/// what is in between and that before the end points. Nothing else is done; no
/// pipeline is asked.
pub proof fn law_drain_requests(t: TopologyView)
    ensures
        ({
            let plan = drain_plan(t);
            let past_starts = 0int + t.start_points.len();
            let past_mixed = past_starts + t.mixed_pickles.len();
            let past_ends = past_mixed + t.end_points.len();
            let past_unlinked = past_ends + t.unlinked.len();
            &&& asks(plan, 0int, Kind::Connector, Command::Drain, t.start_points)
            &&& asks(plan, past_starts, Kind::Connector, Command::Drain, t.mixed_pickles)
            &&& asks(plan, past_mixed, Kind::Connector, Command::Drain, t.end_points)
            &&& asks(plan, past_ends, Kind::Connector, Command::Drain, t.unlinked)
            &&& plan.len() == past_unlinked
        }),
{
}

/// To stop a flow, every connector is asked to stop, the end points before the
/// start points and those before what is in between, and every pipeline after
/// them. Nothing else is done.
pub proof fn law_stop_requests(t: TopologyView)
    ensures
        ({
            let plan = stop_plan(t);
            let past_ends = 0int + t.end_points.len();
            let past_starts = past_ends + t.start_points.len();
            let past_mixed = past_starts + t.mixed_pickles.len();
            let past_unlinked = past_mixed + t.unlinked.len();
            let past_pipelines = past_unlinked + t.pipelines.len();
            &&& asks(plan, 0int, Kind::Connector, Command::Stop, t.end_points)
            &&& asks(plan, past_ends, Kind::Connector, Command::Stop, t.start_points)
            &&& asks(plan, past_starts, Kind::Connector, Command::Stop, t.mixed_pickles)
            &&& asks(plan, past_mixed, Kind::Connector, Command::Stop, t.unlinked)
            &&& asks(plan, past_unlinked, Kind::Pipeline, Command::Stop, t.pipelines)
            &&& plan.len() == past_pipelines
        }),
{
}

/// What the task says it ignores is just what it does ignore: a start but for
/// a flow that is initialized, a pause but for one that runs, a resumption but
/// for one that is paused, and a drain of one that is draining. It ignores no
/// request to stop and no request for a report.
pub proof fn law_ignored_by_state(m: TaskView, msg: Msg)
    requires
        resting(m),
    ensures
        ignored(m.state, msg) <==> match msg {
            Msg::Start => !(m.state is Initialized),
            Msg::Pause => !(m.state is Running),
            Msg::Resume => !(m.state is Paused),
            Msg::Drain(_) => m.state is Draining,
            Msg::Stop(_) | Msg::Report(_) => false,
        },
        ignored(m.state, msg) <==> received(m, Input::Msg(msg)) == m,
{
    match msg {
        Msg::Start => law_start_by_state(m),
        Msg::Pause => law_pause_by_state(m),
        Msg::Resume => law_resume_by_state(m),
        Msg::Drain(sender) => {
            law_drain_by_state(m, sender);
            assert(m.drains.senders.push(sender).len() != m.drains.senders.len());
        },
        Msg::Stop(sender) => {
            law_stop_by_state(m, sender);
            assert(m.stops.senders.push(sender).len() != m.stops.senders.len());
        },
        Msg::Report(sender) => law_report_in_every_state(m, sender),
    }
}

/// A flow that has not been started is started when it is told to. A flow
/// that runs, is paused or is draining is left as it is.
pub proof fn law_start_by_state(m: TaskView)
    requires
        resting(m),
    ensures
        ({
            let after = received(m, Input::Msg(Msg::Start));
            match m.state {
                InstanceState::Initialized => {
                    &&& after.queue == start_plan(m.topology)
                    &&& after == TaskView { work: Work::Starting, queue: after.queue, ..m }
                },
                InstanceState::Running | InstanceState::Paused | InstanceState::Draining => after
                    == m,
            }
        }),
{
}

/// A flow that runs is paused when it is told to; without any instance it is
/// paused at once. A flow in any other state is left as it is.
pub proof fn law_pause_by_state(m: TaskView)
    requires
        resting(m),
    ensures
        ({
            let after = received(m, Input::Msg(Msg::Pause));
            match m.state {
                InstanceState::Running => {
                    &&& after.queue == pause_plan(m.topology)
                    &&& after == if after.queue.len() > 0 {
                        TaskView { work: Work::Pausing, queue: after.queue, ..m }
                    } else {
                        TaskView { state: InstanceState::Paused, ..m }
                    }
                },
                InstanceState::Initialized | InstanceState::Paused | InstanceState::Draining => {
                    after == m
                },
            }
        }),
{
    assert(m.queue =~= Seq::empty());
    assert(pause_plan(m.topology).len() == 0 ==> pause_plan(m.topology) =~= Seq::empty());
}

/// A flow that is paused is resumed when it is told to; without any instance
/// it runs at once. A flow in any other state is left as it is.
pub proof fn law_resume_by_state(m: TaskView)
    requires
        resting(m),
    ensures
        ({
            let after = received(m, Input::Msg(Msg::Resume));
            match m.state {
                InstanceState::Paused => {
                    &&& after.queue == resume_plan(m.topology)
                    &&& after == if after.queue.len() > 0 {
                        TaskView { work: Work::Resuming, queue: after.queue, ..m }
                    } else {
                        TaskView { state: InstanceState::Running, ..m }
                    }
                },
                InstanceState::Initialized | InstanceState::Running | InstanceState::Draining => {
                    after == m
                },
            }
        }),
{
    assert(m.queue =~= Seq::empty());
    assert(resume_plan(m.topology).len() == 0 ==> resume_plan(m.topology) =~= Seq::empty());
}

/// A flow that is initialized, runs or is paused is drained when somebody asks
/// for it: who asks joins those who wait, as the last of them, and every
/// connector is to be asked. Where there is no connector to ask and none is
/// still to answer, everybody who waits is notified at once. Only a flow that
/// is draining already is left as it is.
pub proof fn law_drain_by_state(m: TaskView, sender: Sender<Notice>)
    requires
        resting(m),
    ensures
        ({
            let after = received(m, Input::Msg(Msg::Drain(sender)));
            match m.state {
                InstanceState::Initialized | InstanceState::Running | InstanceState::Paused => {
                    let senders = m.drains.senders.push(sender);
                    let plan = drain_plan(m.topology);
                    if plan.len() > 0 {
                        &&& after.queue == plan
                        &&& after.drains.senders == senders
                        &&& after.drains.expected == m.drains.expected
                        &&& after == TaskView {
                            work: Work::Asking(Process::Drain),
                            queue: after.queue,
                            drains: after.drains,
                            ..m
                        }
                    } else if m.drains.expected == 0 {
                        &&& notifies(after.queue, Process::Drain, senders)
                        &&& unawaited(after.drains)
                        &&& after == TaskView {
                            work: Work::Notifying(Process::Drain),
                            queue: after.queue,
                            drains: after.drains,
                            ..m
                        }
                    } else {
                        &&& after.drains.senders == senders
                        &&& after.drains.expected == m.drains.expected
                        &&& after == TaskView { drains: after.drains, ..m }
                    }
                },
                InstanceState::Draining => after == m,
            }
        }),
{
    assert(m.queue =~= Seq::empty());
    let plan = drain_plan(m.topology);
    assert(plan.len() == 0 ==> plan =~= Seq::empty());
}

/// A flow is stopped when somebody asks for it, whatever its state is: who asks
/// joins those who wait, as the last of them, and every connector and pipeline
/// is to be asked. Where there is nobody to ask and no connector is still to
/// answer, everybody who waits is notified at once.
pub proof fn law_stop_by_state(m: TaskView, sender: Sender<Notice>)
    requires
        resting(m),
    ensures
        ({
            let after = received(m, Input::Msg(Msg::Stop(sender)));
            let senders = m.stops.senders.push(sender);
            let plan = stop_plan(m.topology);
            if plan.len() > 0 {
                &&& after.queue == plan
                &&& after.stops.senders == senders
                &&& after.stops.expected == m.stops.expected
                &&& after == TaskView {
                    work: Work::Asking(Process::Stop),
                    queue: after.queue,
                    stops: after.stops,
                    ..m
                }
            } else if m.stops.expected == 0 {
                &&& notifies(after.queue, Process::Stop, senders)
                &&& unawaited(after.stops)
                &&& after == TaskView {
                    work: Work::Notifying(Process::Stop),
                    queue: after.queue,
                    stops: after.stops,
                    ..m
                }
            } else {
                &&& after.stops.senders == senders
                &&& after.stops.expected == m.stops.expected
                &&& after == TaskView { stops: after.stops, ..m }
            }
        }),
{
    assert(m.queue =~= Seq::empty());
    let plan = stop_plan(m.topology);
    assert(plan.len() == 0 ==> plan =~= Seq::empty());
}

/// An answer to a request to drain, whatever it says, is the answer of one
/// connector. With the last one that was expected everybody who waits is
/// notified; before that they go on waiting. One that nobody expects changes
/// nothing.
pub proof fn law_drain_answer_counts_one(m: TaskView, result: ConnectorResult)
    requires
        m.drains.expected >= 0,
    ensures
        ({
            let after = received(m, Input::DrainResult(result));
            if m.drains.expected == 0 {
                after == m
            } else if m.drains.expected == 1 {
                &&& notifies(after.queue, Process::Drain, m.drains.senders)
                &&& unawaited(after.drains)
                &&& after == TaskView {
                    work: Work::Notifying(Process::Drain),
                    queue: after.queue,
                    drains: after.drains,
                    ..m
                }
            } else {
                &&& after.drains.expected == m.drains.expected - 1
                &&& after.drains.senders == m.drains.senders
                &&& after == TaskView { drains: after.drains, ..m }
            }
        }),
{
}

/// An answer to a request to stop, whatever it says, is the answer of one
/// connector. With the last one that was expected everybody who waits is
/// notified; before that they go on waiting. One that nobody expects changes
/// nothing.
pub proof fn law_stop_answer_counts_one(m: TaskView, result: ConnectorResult)
    requires
        m.stops.expected >= 0,
    ensures
        ({
            let after = received(m, Input::StopResult(result));
            if m.stops.expected == 0 {
                after == m
            } else if m.stops.expected == 1 {
                &&& notifies(after.queue, Process::Stop, m.stops.senders)
                &&& unawaited(after.stops)
                &&& after == TaskView {
                    work: Work::Notifying(Process::Stop),
                    queue: after.queue,
                    stops: after.stops,
                    ..m
                }
            } else {
                &&& after.stops.expected == m.stops.expected - 1
                &&& after.stops.senders == m.stops.senders
                &&& after == TaskView { stops: after.stops, ..m }
            }
        }),
{
}

/// Who asks for a report gets one, in every state: of the url and the state of
/// the flow as it is. That and nothing else is to be done.
pub proof fn law_report_in_every_state(m: TaskView, sender: Sender<StatusReport>)
    requires
        resting(m),
    ensures
        ({
            let after = received(m, Input::Msg(Msg::Report(sender)));
            &&& after.queue.len() == 1
            &&& after.queue[0] matches Action::SendReport(to, report) && {
                &&& to == sender
                &&& report.url == m.url
                &&& report.status == m.state
            }
            &&& after == TaskView { work: Work::Reporting, queue: after.queue, ..m }
        }),
{
}

/// A task without any more input ends as it is.
pub proof fn law_closed_input_ends(m: TaskView)
    ensures
        received(m, Input::Closed) == (TaskView { work: Work::Ended, ..m }),
{
}

/// Requests are handed out one at a time and in their order. While a request
/// to wait for connectors is open, as many responses are owed as were to be
/// awaited; while a connector is being asked to drain or to stop, what comes of
/// it bears on that process and on no other.
pub proof fn law_requests_are_handed_out_in_order(m: TaskView)
    requires
        m.queue.len() > 0,
    ensures
        ({
            let after = handed_out(m);
            &&& after.queue.len() == m.queue.len() - 1
            &&& forall|i: int| 0 <= i < after.queue.len() ==> #[trigger] after.queue[i] == m.queue[i
                + 1]
            &&& after == TaskView { queue: after.queue, pending: after.pending, ..m }
            &&& after.pending != Pending::Nothing
            &&& match m.queue[0] {
                Action::AwaitStarted(n) => after.pending == Pending::Started(n),
                _ => !(after.pending is Started),
            }
            &&& forall|process: Process|
                after.pending == Pending::Part(process) <==> #[trigger] takes_part(
                    m.queue[0],
                    process,
                )
        }),
{
}

/// The task with one more connector to answer, where one has just taken a
/// request to take part in a process.
pub open spec fn counted(m: TaskView, outcome: Result<(), DeployError>) -> TaskView {
    TaskView {
        drains: WaitingView {
            expected: m.drains.expected + if outcome is Ok && m.pending == Pending::Part(
                Process::Drain,
            ) {
                1int
            } else {
                0int
            },
            senders: m.drains.senders,
        },
        stops: WaitingView {
            expected: m.stops.expected + if outcome is Ok && m.pending == Pending::Part(
                Process::Stop,
            ) {
                1int
            } else {
                0int
            },
            senders: m.stops.senders,
        },
        pending: Pending::Nothing,
        ..m
    }
}

/// Where a request fails while a flow is started, paused or resumed, the task
/// ends with the error of that request, and nothing that was still to be done
/// is done.
pub proof fn law_failed_request_ends_work(m: TaskView, error: DeployError)
    requires
        m.work == Work::Starting || m.work == Work::Pausing || m.work == Work::Resuming,
    ensures
        ({
            let after = informed(m, Err(error));
            &&& after.queue.len() == 0
            &&& after == TaskView {
                work: Work::Ended,
                queue: after.queue,
                pending: Pending::Nothing,
                result: Err(error),
                ..m
            }
        }),
{
}

/// In every other case the task goes on with its next request, and a connector
/// is to answer just where it was asked to take part in a process and took it.
pub proof fn law_work_goes_on(m: TaskView, outcome: Result<(), DeployError>)
    requires
        m.queue.len() > 0,
        outcome is Ok || !(m.work == Work::Starting || m.work == Work::Pausing || m.work
            == Work::Resuming),
    ensures
        informed(m, outcome) == counted(m, outcome),
{
}

/// After the last request, a flow that was started or resumed runs, and one
/// that was paused is paused. A task that has asked connectors to drain or to
/// stop waits for their answers, and where it need not wait for any, notifies
/// everybody who waits. A task that has sent word of a stop ends; after
/// anything else it waits for the next input.
pub proof fn law_last_outcome_settles(m: TaskView, outcome: Result<(), DeployError>)
    requires
        m.queue.len() == 0,
        m.work != Work::Idle,
        m.work != Work::Ended,
        outcome is Ok || !(m.work == Work::Starting || m.work == Work::Pausing || m.work
            == Work::Resuming),
    ensures
        ({
            let before = counted(m, outcome);
            let after = informed(m, outcome);
            let waiting = TaskView { work: Work::Idle, ..before };
            match m.work {
                Work::Starting | Work::Resuming => after == TaskView {
                    state: InstanceState::Running,
                    ..waiting
                },
                Work::Pausing => after == TaskView { state: InstanceState::Paused, ..waiting },
                Work::Asking(Process::Drain) => if before.drains.expected == 0 {
                    &&& notifies(after.queue, Process::Drain, m.drains.senders)
                    &&& unawaited(after.drains)
                    &&& after == TaskView {
                        work: Work::Notifying(Process::Drain),
                        queue: after.queue,
                        drains: after.drains,
                        ..before
                    }
                } else {
                    after == waiting
                },
                Work::Asking(Process::Stop) => if before.stops.expected == 0 {
                    &&& notifies(after.queue, Process::Stop, m.stops.senders)
                    &&& unawaited(after.stops)
                    &&& after == TaskView {
                        work: Work::Notifying(Process::Stop),
                        queue: after.queue,
                        stops: after.stops,
                        ..before
                    }
                } else {
                    after == waiting
                },
                Work::Notifying(Process::Stop) => after == TaskView {
                    work: Work::Ended,
                    ..before
                },
                Work::Notifying(Process::Drain) | Work::Reporting | Work::Idle | Work::Ended => {
                    after == waiting
                },
            }
        }),
{
}

/// A notice goes to each of those who wait, once and in their order.
pub proof fn law_notices(process: Process, senders: Seq<Sender<Notice>>)
    ensures
        notifies(notices(process, senders), process, senders),
{
}

/// A control task that has not had any input stands for a flow that is
/// initialized, waits for an input, and nobody waits for it.
pub proof fn law_task_begins_initialized(
    m: TaskView,
    pipelines: Instances,
    connectors: Instances,
    links: Seq<ConnectStmt>,
)
    requires
        fresh(m, pipelines, connectors, links),
    ensures
        resting(m),
        valid(m),
        m.state == InstanceState::Initialized,
        m.url@ == "tremor://localhost/binding/FIXME/FIXME/FIXME"@,
        unawaited(m.drains),
        unawaited(m.stops),
        m.result is Ok,
{
}

} // verus!
