//! The control task of a deployment.
//!
//! The task takes one input at a time. An input sets out a sequence of
//! requests to the runtime; the task hands them out one by one and is told
//! how each of them went before it hands out the next. When none is left, it
//! is ready for the next input.
//!
//! A request that fails while the flow is started, paused or resumed ends the
//! task. A request that fails while the flow is drained or stopped, or while
//! somebody is being notified, is passed over.
use crate::deployment::Deployment;
use crate::error::DeployError;
use crate::flow::ConnectStmt;
use crate::msg::{
    outcome_of, wait_for_responses, ConnectorResult, InstanceState, Msg, StatusReport,
};
use crate::registry::{Instances, Registry};
use crate::topology::{connectors_known, topology_of, Topology, TopologyView};
use async_std::channel::Sender;
use std::collections::VecDeque;
use vstd::prelude::*;

verus! {

/// Word that a process is done.
pub type Notice = Result<(), DeployError>;

/// What the control task waits for.
#[derive(Debug)]
pub enum Input {
    /// a control message
    Msg(Msg),
    /// a connector has been drained
    DrainResult(ConnectorResult),
    /// a connector has been stopped
    StopResult(ConnectorResult),
    /// no input will come any more
    Closed,
}

/// What an instance can be asked to do.
#[derive(Debug, PartialEq, Eq, Clone, Copy, Structural)]
pub enum Command {
    Start,
    Pause,
    Resume,
    Drain,
    Stop,
}

/// What an instance is.
#[derive(Debug, PartialEq, Eq, Clone, Copy, Structural)]
pub enum Kind {
    Pipeline,
    Connector,
}

/// A process that connectors take part in on their own and answer when they
/// are through with it.
#[derive(Debug, PartialEq, Eq, Clone, Copy, Structural)]
pub enum Process {
    Drain,
    Stop,
}

/// A request of the control task to the runtime.
#[derive(Debug)]
pub enum Action {
    /// ask the instance at this address
    Ask(Kind, Command, u64),
    /// wait until this many connectors have answered whether they started
    AwaitStarted(usize),
    /// send the report
    SendReport(Sender<StatusReport>, StatusReport),
    /// send word that the process is done
    Notify(Process, Sender<Notice>),
}

/// What the control task wants next.
#[derive(Debug)]
pub enum Directive {
    /// the next input
    Receive,
    /// this request carried out, and word of how it went
    Perform(Action),
    /// nothing: it has ended
    Finish,
}

/// What the control task is doing.
#[derive(Debug, PartialEq, Eq, Clone, Copy, Structural)]
pub enum Work {
    /// waiting for an input
    Idle,
    Starting,
    Pausing,
    Resuming,
    /// asking connectors to take part in the process
    Asking(Process),
    Reporting,
    /// sending word that the process is done
    Notifying(Process),
    /// nothing any more
    Ended,
}

/// The request whose outcome is still open.
#[derive(Debug, PartialEq, Eq, Clone, Copy, Structural)]
pub enum Pending {
    /// none
    Nothing,
    /// one to a connector to take part in the process
    Part(Process),
    /// one to wait for this many answers
    Started(usize),
    /// one of any other kind
    Other,
}

/// How a process stands.
#[derive(Debug)]
struct Waiting {
    expected: usize,
    senders: Vec<Sender<Notice>>,
}

/// How a process stands.
#[verifier::ext_equal]
pub struct WaitingView {
    /// how many connectors are still to answer
    pub expected: int,
    /// whom to notify when the process is done
    pub senders: Seq<Sender<Notice>>,
}

impl View for Waiting {
    type V = WaitingView;

    closed spec fn view(&self) -> WaitingView {
        WaitingView { expected: self.expected as int, senders: self.senders@ }
    }
}

impl WaitingView {
    /// Nobody is to answer, and nobody to be notified.
    pub open spec fn nobody() -> WaitingView {
        WaitingView { expected: 0, senders: Seq::empty() }
    }

    /// Somebody waits for the process just while a connector is still to
    /// answer, or while connectors are being asked.
    pub open spec fn valid(self, asking: bool) -> bool {
        &&& self.expected >= 0
        &&& self.senders.len() > 0 <==> self.expected > 0 || asking
    }
}

/// The control task of one deployment.
#[derive(Debug)]
pub struct FlowTask {
    url: String,
    state: InstanceState,
    topology: Topology,
    drains: Waiting,
    stops: Waiting,
    work: Work,
    queue: VecDeque<Action>,
    pending: Pending,
    result: Result<(), DeployError>,
}

/// The state of a control task.
#[verifier::ext_equal]
pub struct TaskView {
    /// the url the task reports
    pub url: String,
    /// the state the task reports
    pub state: InstanceState,
    pub topology: TopologyView,
    pub drains: WaitingView,
    pub stops: WaitingView,
    pub work: Work,
    /// the requests that are still to be handed out
    pub queue: Seq<Action>,
    pub pending: Pending,
    /// what the task ended with, once it has ended
    pub result: Result<(), DeployError>,
}

impl View for FlowTask {
    type V = TaskView;

    closed spec fn view(&self) -> TaskView {
        TaskView {
            url: self.url,
            state: self.state,
            topology: self.topology@,
            drains: self.drains@,
            stops: self.stops@,
            work: self.work,
            queue: self.queue@,
            pending: self.pending,
            result: self.result,
        }
    }
}

impl TaskView {
    /// How `process` stands.
    pub open spec fn waiting(self, process: Process) -> WaitingView {
        match process {
            Process::Drain => self.drains,
            Process::Stop => self.stops,
        }
    }

    /// The task, with `process` standing as `waiting` says.
    pub open spec fn with_waiting(self, process: Process, waiting: WaitingView) -> TaskView {
        match process {
            Process::Drain => TaskView { drains: waiting, ..self },
            Process::Stop => TaskView { stops: waiting, ..self },
        }
    }
}

/// The same request to each instance of a group.
pub open spec fn asked(kind: Kind, command: Command, group: Seq<u64>) -> Seq<Action> {
    group.map_values(|address: u64| Action::Ask(kind, command, address))
}

/// The requests that start a group of connectors and wait for it.
pub open spec fn start_group(group: Seq<u64>) -> Seq<Action> {
    asked(Kind::Connector, Command::Start, group).push(Action::AwaitStarted(group.len() as usize))
}

/// The requests that start a flow. The pipelines come first. Then the sinks
/// are started, what is both sink and source after them, the sources after
/// that and what is not linked last, each group after the one before it has
/// answered.
pub open spec fn start_plan(t: TopologyView) -> Seq<Action> {
    asked(Kind::Pipeline, Command::Start, t.pipelines) + start_group(t.end_points) + start_group(
        t.mixed_pickles,
    ) + start_group(t.start_points) + start_group(t.unlinked)
}

/// The requests that pause a flow: what is not linked, then from its sources
/// to its sinks, and the pipelines last.
pub open spec fn pause_plan(t: TopologyView) -> Seq<Action> {
    asked(
        Kind::Connector,
        Command::Pause,
        t.unlinked + t.start_points + t.mixed_pickles + t.end_points,
    ) + asked(Kind::Pipeline, Command::Pause, t.pipelines)
}

/// The requests that resume a flow: the pipelines first, then from its sinks
/// to its sources, and what is not linked last.
pub open spec fn resume_plan(t: TopologyView) -> Seq<Action> {
    asked(Kind::Pipeline, Command::Resume, t.pipelines) + asked(
        Kind::Connector,
        Command::Resume,
        t.end_points + t.mixed_pickles + t.start_points + t.unlinked,
    )
}

/// The requests that drain a flow, from its sources to its sinks, and what is
/// not linked last.
pub open spec fn drain_plan(t: TopologyView) -> Seq<Action> {
    asked(
        Kind::Connector,
        Command::Drain,
        t.start_points + t.mixed_pickles + t.end_points + t.unlinked,
    )
}

/// The requests that stop a flow: the sinks, the sources, what is both, what
/// is not linked, and the pipelines last.
pub open spec fn stop_plan(t: TopologyView) -> Seq<Action> {
    asked(
        Kind::Connector,
        Command::Stop,
        t.end_points + t.start_points + t.mixed_pickles + t.unlinked,
    ) + asked(Kind::Pipeline, Command::Stop, t.pipelines)
}

/// The notices to `senders` that `process` is done.
pub open spec fn notices(process: Process, senders: Seq<Sender<Notice>>) -> Seq<Action> {
    senders.map_values(|sender: Sender<Notice>| Action::Notify(process, sender))
}

/// The task as it sets out to notify everybody who waits for `process`.
pub open spec fn notifying(m: TaskView, process: Process) -> TaskView {
    TaskView {
        work: Work::Notifying(process),
        queue: notices(process, m.waiting(process).senders),
        ..m.with_waiting(process, WaitingView::nobody())
    }
}

/// The task after its last request has been dealt with, where it has. A flow
/// that has been started or resumed runs, and one that has been paused is
/// paused. A process that no connector is still to answer is done. A task
/// that has sent word that the flow is stopped ends.
pub open spec fn settled(m: TaskView) -> TaskView {
    if m.queue.len() > 0 || m.pending != Pending::Nothing {
        m
    } else {
        match m.work {
            Work::Starting => TaskView { state: InstanceState::Running, work: Work::Idle, ..m },
            Work::Pausing => TaskView { state: InstanceState::Paused, work: Work::Idle, ..m },
            Work::Resuming => TaskView { state: InstanceState::Running, work: Work::Idle, ..m },
            Work::Asking(process) => if m.waiting(process).expected == 0 {
                notifying(m, process)
            } else {
                TaskView { work: Work::Idle, ..m }
            },
            Work::Notifying(Process::Stop) | Work::Ended => TaskView { work: Work::Ended, ..m },
            Work::Notifying(Process::Drain) | Work::Reporting | Work::Idle => TaskView {
                work: Work::Idle,
                ..m
            },
        }
    }
}

/// The task as it sets out on `work`, which takes the requests `plan`.
pub open spec fn set_out(m: TaskView, work: Work, plan: Seq<Action>) -> TaskView {
    settled(TaskView { work, queue: plan, ..m })
}

/// Whether `msg` does not suit a flow in this state and is ignored.
pub open spec fn ignored(state: InstanceState, msg: Msg) -> bool {
    match msg {
        Msg::Start => state != InstanceState::Initialized,
        Msg::Pause => state != InstanceState::Running,
        Msg::Resume => state != InstanceState::Paused,
        Msg::Drain(_) => state == InstanceState::Draining,
        Msg::Stop(_) | Msg::Report(_) => false,
    }
}

/// The task after `sender` has joined those who wait for `process`.
pub open spec fn joined(m: TaskView, process: Process, sender: Sender<Notice>) -> TaskView {
    let waiting = m.waiting(process);
    m.with_waiting(process, WaitingView { senders: waiting.senders.push(sender), ..waiting })
}

/// The task after a control message.
pub open spec fn after_msg(m: TaskView, msg: Msg) -> TaskView {
    if ignored(m.state, msg) {
        m
    } else {
        match msg {
            Msg::Start => set_out(m, Work::Starting, start_plan(m.topology)),
            Msg::Pause => set_out(m, Work::Pausing, pause_plan(m.topology)),
            Msg::Resume => set_out(m, Work::Resuming, resume_plan(m.topology)),
            Msg::Drain(sender) => set_out(
                joined(m, Process::Drain, sender),
                Work::Asking(Process::Drain),
                drain_plan(m.topology),
            ),
            Msg::Stop(sender) => set_out(
                joined(m, Process::Stop, sender),
                Work::Asking(Process::Stop),
                stop_plan(m.topology),
            ),
            Msg::Report(sender) => set_out(
                m,
                Work::Reporting,
                seq![Action::SendReport(sender, StatusReport { url: m.url, status: m.state })],
            ),
        }
    }
}

/// The task after a connector has answered that it is through with `process`,
/// well or not. The last answer that was expected makes the process done; one
/// that was not expected changes nothing.
pub open spec fn answered(m: TaskView, process: Process) -> TaskView {
    let waiting = m.waiting(process);
    if waiting.expected == 0 {
        m
    } else if waiting.expected == 1 {
        notifying(m, process)
    } else {
        m.with_waiting(process, WaitingView { expected: waiting.expected - 1, ..waiting })
    }
}

/// The task after an input.
pub open spec fn received(m: TaskView, input: Input) -> TaskView {
    match input {
        Input::Msg(msg) => after_msg(m, msg),
        Input::DrainResult(_) => answered(m, Process::Drain),
        Input::StopResult(_) => answered(m, Process::Stop),
        Input::Closed => TaskView { work: Work::Ended, ..m },
    }
}

/// What is open while the outcome of `action` is.
pub open spec fn pending_of(action: Action) -> Pending {
    match action {
        Action::Ask(Kind::Connector, Command::Drain, _) => Pending::Part(Process::Drain),
        Action::Ask(Kind::Connector, Command::Stop, _) => Pending::Part(Process::Stop),
        Action::AwaitStarted(n) => Pending::Started(n),
        _ => Pending::Other,
    }
}

/// The task after it has handed out its next request.
pub open spec fn handed_out(m: TaskView) -> TaskView {
    TaskView { queue: m.queue.skip(1), pending: pending_of(m.queue[0]), ..m }
}

/// Whether a request that fails during `work` ends the task.
pub open spec fn is_strict(work: Work) -> bool {
    work == Work::Starting || work == Work::Pausing || work == Work::Resuming
}

/// The task after a connector has taken a request to take part in `process`:
/// it is expected to answer.
pub open spec fn expecting(m: TaskView, process: Process) -> TaskView {
    let waiting = m.waiting(process);
    m.with_waiting(process, WaitingView { expected: waiting.expected + 1, ..waiting })
}

/// The task after it has been told how its open request went.
pub open spec fn informed(m: TaskView, outcome: Result<(), DeployError>) -> TaskView {
    let closed = TaskView { pending: Pending::Nothing, ..m };
    match outcome {
        Err(error) => if is_strict(m.work) {
            TaskView { work: Work::Ended, queue: Seq::empty(), result: Err(error), ..closed }
        } else {
            settled(closed)
        },
        Ok(_) => match m.pending {
            Pending::Part(process) => settled(expecting(closed, process)),
            _ => settled(closed),
        },
    }
}

/// What holds of a control task even while it has not settled.
pub open spec fn sound(m: TaskView) -> bool {
    // connectors are asked to take part in a process just while the task is at that
    &&& m.pending matches Pending::Part(process) ==> m.work == Work::Asking(process)
    &&& forall|i: int|
        0 <= i < m.queue.len() ==> (pending_of(#[trigger] m.queue[i]) matches Pending::Part(process)
            ==> m.work == Work::Asking(process))
    // whoever waits for a process has somebody to wait for
    &&& m.drains.valid(m.work == Work::Asking(Process::Drain))
    &&& m.stops.valid(m.work == Work::Asking(Process::Stop))
    // a flow is started, paused or resumed just where that suits its state
    &&& m.work == Work::Starting ==> m.state == InstanceState::Initialized
    &&& m.work == Work::Pausing ==> m.state == InstanceState::Running
    &&& m.work == Work::Resuming ==> m.state == InstanceState::Paused
    // only a task that has ended has failed
    &&& m.work != Work::Ended ==> m.result == Ok::<(), DeployError>(())
}

/// What holds of a control task at all times.
pub open spec fn valid(m: TaskView) -> bool {
    &&& sound(m)
    // there is something to do just while the task is at work
    &&& (m.work == Work::Idle || m.work == Work::Ended) == (m.queue.len() == 0 && m.pending
        == Pending::Nothing)
}

proof fn lemma_settled_valid(m: TaskView)
    requires
        sound(m),
        m.work != Work::Idle,
        m.work != Work::Ended,
    ensures
        valid(settled(m)),
{
}

proof fn lemma_after_msg_valid(m: TaskView, msg: Msg)
    requires
        valid(m),
        m.work == Work::Idle,
    ensures
        valid(after_msg(m, msg)),
{
    let t = m.topology;
    if !ignored(m.state, msg) {
        let at_work = match msg {
            Msg::Start => TaskView { work: Work::Starting, queue: start_plan(t), ..m },
            Msg::Pause => TaskView { work: Work::Pausing, queue: pause_plan(t), ..m },
            Msg::Resume => TaskView { work: Work::Resuming, queue: resume_plan(t), ..m },
            Msg::Drain(sender) => TaskView {
                work: Work::Asking(Process::Drain),
                queue: drain_plan(t),
                ..joined(m, Process::Drain, sender)
            },
            Msg::Stop(sender) => TaskView {
                work: Work::Asking(Process::Stop),
                queue: stop_plan(t),
                ..joined(m, Process::Stop, sender)
            },
            Msg::Report(sender) => TaskView {
                work: Work::Reporting,
                queue: seq![
                    Action::SendReport(sender, StatusReport { url: m.url, status: m.state }),
                ],
                ..m
            },
        };
        assert(after_msg(m, msg) == settled(at_work));
        lemma_settled_valid(at_work);
    }
}

/// What holds of a control task at all times still holds after an input.
pub proof fn law_received_valid(m: TaskView, input: Input)
    requires
        valid(m),
        m.work == Work::Idle,
    ensures
        valid(received(m, input)),
{
    match input {
        Input::Msg(msg) => lemma_after_msg_valid(m, msg),
        _ => {},
    }
}

/// What holds of a control task at all times still holds after a request has
/// been handed out and after word of how it went.
pub proof fn law_informed_valid(m: TaskView, outcome: Result<(), DeployError>)
    requires
        valid(m),
    ensures
        m.pending == Pending::Nothing && m.queue.len() > 0 ==> valid(handed_out(m)),
        m.pending != Pending::Nothing ==> valid(informed(m, outcome)),
{
    if m.pending != Pending::Nothing {
        let closed = TaskView { pending: Pending::Nothing, ..m };
        lemma_settled_valid(closed);
        if let Pending::Part(process) = m.pending {
            lemma_settled_valid(expecting(closed, process));
        }
    }
}

impl Kind {
    /// Appends the request `command` to each instance of `group`.
    fn ask(self, command: Command, group: &Vec<u64>, plan: &mut VecDeque<Action>)
        ensures
            final(plan)@ == old(plan)@ + asked(self, command, group@),
    {
        let ghost before = plan@;
        let mut i: usize = 0;
        assert(plan@ =~= before + asked(self, command, group@.take(0)));
        while i < group.len()
            invariant
                i <= group.len(),
                plan@ == before + asked(self, command, group@.take(i as int)),
            decreases group.len() - i,
        {
            plan.push_back(Action::Ask(self, command, group[i]));
            i = i + 1;
            assert(plan@ =~= before + asked(self, command, group@.take(i as int)));
        }
        assert(group@.take(group.len() as int) =~= group@);
    }
}

/// Appends the requests that start `group` and wait for it.
fn ask_to_start(group: &Vec<u64>, plan: &mut VecDeque<Action>)
    ensures
        final(plan)@ == old(plan)@ + start_group(group@),
{
    Kind::Connector.ask(Command::Start, group, plan);
    plan.push_back(Action::AwaitStarted(group.len()));
    assert(plan@ =~= old(plan)@ + start_group(group@));
}

impl Topology {
    /// The requests that start the flow.
    pub fn start_actions(&self) -> (plan: VecDeque<Action>)
        ensures
            plan@ == start_plan(self@),
    {
        let mut plan: VecDeque<Action> = VecDeque::new();
        // start all pipelines first - the order among them does not matter as
        // no connector is started yet
        Kind::Pipeline.ask(Command::Start, &self.pipelines, &mut plan);
        assert(plan@ =~= asked(Kind::Pipeline, Command::Start, self@.pipelines));
        // start sink connectors first
        ask_to_start(&self.end_points, &mut plan);
        // then what is both source and sink
        ask_to_start(&self.mixed_pickles, &mut plan);
        // then source only connectors
        ask_to_start(&self.start_points, &mut plan);
        // then what takes no part in the flow of events
        ask_to_start(&self.unlinked, &mut plan);
        plan
    }

    /// The requests that pause the flow.
    pub fn pause_actions(&self) -> (plan: VecDeque<Action>)
        ensures
            plan@ == pause_plan(self@),
    {
        let mut plan: VecDeque<Action> = VecDeque::new();
        Kind::Connector.ask(Command::Pause, &self.unlinked, &mut plan);
        Kind::Connector.ask(Command::Pause, &self.start_points, &mut plan);
        Kind::Connector.ask(Command::Pause, &self.mixed_pickles, &mut plan);
        Kind::Connector.ask(Command::Pause, &self.end_points, &mut plan);
        Kind::Pipeline.ask(Command::Pause, &self.pipelines, &mut plan);
        assert(plan@ =~= pause_plan(self@));
        plan
    }

    /// The requests that resume the flow.
    pub fn resume_actions(&self) -> (plan: VecDeque<Action>)
        ensures
            plan@ == resume_plan(self@),
    {
        let mut plan: VecDeque<Action> = VecDeque::new();
        Kind::Pipeline.ask(Command::Resume, &self.pipelines, &mut plan);
        Kind::Connector.ask(Command::Resume, &self.end_points, &mut plan);
        Kind::Connector.ask(Command::Resume, &self.mixed_pickles, &mut plan);
        Kind::Connector.ask(Command::Resume, &self.start_points, &mut plan);
        Kind::Connector.ask(Command::Resume, &self.unlinked, &mut plan);
        assert(plan@ =~= resume_plan(self@));
        plan
    }

    /// The requests that drain the flow.
    pub fn drain_actions(&self) -> (plan: VecDeque<Action>)
        ensures
            plan@ == drain_plan(self@),
    {
        let mut plan: VecDeque<Action> = VecDeque::new();
        // source only connectors
        Kind::Connector.ask(Command::Drain, &self.start_points, &mut plan);
        // source/sink connectors
        Kind::Connector.ask(Command::Drain, &self.mixed_pickles, &mut plan);
        // sink only connectors
        Kind::Connector.ask(Command::Drain, &self.end_points, &mut plan);
        Kind::Connector.ask(Command::Drain, &self.unlinked, &mut plan);
        assert(plan@ =~= drain_plan(self@));
        plan
    }

    /// The requests that stop the flow.
    pub fn stop_actions(&self) -> (plan: VecDeque<Action>)
        ensures
            plan@ == stop_plan(self@),
    {
        let mut plan: VecDeque<Action> = VecDeque::new();
        Kind::Connector.ask(Command::Stop, &self.end_points, &mut plan);
        Kind::Connector.ask(Command::Stop, &self.start_points, &mut plan);
        Kind::Connector.ask(Command::Stop, &self.mixed_pickles, &mut plan);
        Kind::Connector.ask(Command::Stop, &self.unlinked, &mut plan);
        Kind::Pipeline.ask(Command::Stop, &self.pipelines, &mut plan);
        assert(plan@ =~= stop_plan(self@));
        plan
    }
}

impl Waiting {
    fn nobody() -> (waiting: Waiting)
        ensures
            waiting@ == WaitingView::nobody(),
    {
        Waiting { expected: 0, senders: Vec::new() }
    }

    /// The notices to everybody who waits that `process` is done.
    fn into_notices(self, process: Process) -> (plan: VecDeque<Action>)
        ensures
            plan@ == notices(process, self@.senders),
    {
        let senders = self.senders;
        let ghost all = senders@;
        let mut plan: VecDeque<Action> = VecDeque::new();
        for sender in iter: senders
            invariant
                iter.seq() == all,
                plan@ == notices(process, all.take(iter.index() as int)),
        {
            plan.push_back(Action::Notify(process, sender));
            assert(plan@ =~= notices(process, all.take(iter.index() as int + 1)));
        }
        assert(all.take(all.len() as int) =~= all);
        plan
    }
}

/// A control task that has not had any input, for the flow of these `links`.
pub open spec fn fresh(
    m: TaskView,
    pipelines: Instances,
    connectors: Instances,
    links: Seq<ConnectStmt>,
) -> bool {
    &&& m.url@ == "tremor://localhost/binding/FIXME/FIXME/FIXME"@
    &&& m.state == InstanceState::Initialized
    &&& topology_of(m.topology, pipelines, connectors, links)
    &&& m.drains == WaitingView::nobody()
    &&& m.stops == WaitingView::nobody()
    &&& m.work == Work::Idle
    &&& m.queue == Seq::<Action>::empty()
    &&& m.pending == Pending::Nothing
    &&& m.result == Ok::<(), DeployError>(())
}

impl Deployment {
    /// Makes the control task of a flow with these instances and `links`.
    pub fn spawn_task(
        pipelines: &Registry,
        connectors: &Registry,
        links: &Vec<ConnectStmt>,
    ) -> (task: FlowTask)
        requires
            connectors_known(connectors@, links@),
        ensures
            fresh(task@, pipelines@, connectors@, links@),
            valid(task@),
    {
        FlowTask {
            url: "tremor://localhost/binding/FIXME/FIXME/FIXME".to_string(),
            state: InstanceState::Initialized,
            topology: Topology::new(pipelines, connectors, links),
            drains: Waiting::nobody(),
            stops: Waiting::nobody(),
            work: Work::Idle,
            queue: VecDeque::new(),
            pending: Pending::Nothing,
            result: Ok(()),
        }
    }
}

impl FlowTask {
    /// The state that the task reports.
    pub fn state(&self) -> (state: InstanceState)
        ensures
            state == self@.state,
    {
        self.state
    }

    /// How many connectors are still to answer that they are through with `process`.
    pub fn expected(&self, process: Process) -> (n: usize)
        ensures
            n == self@.waiting(process).expected,
    {
        match process {
            Process::Drain => self.drains.expected,
            Process::Stop => self.stops.expected,
        }
    }

    /// The parts that the instances of the flow play.
    pub fn topology(&self) -> (topology: &Topology)
        ensures
            topology@ == self@.topology,
    {
        &self.topology
    }

    /// Whether the task would ignore `msg` as it is.
    pub fn ignores(&self, msg: &Msg) -> (ignores: bool)
        ensures
            ignores == ignored(self@.state, *msg),
    {
        match msg {
            Msg::Start => self.state != InstanceState::Initialized,
            Msg::Pause => self.state != InstanceState::Running,
            Msg::Resume => self.state != InstanceState::Paused,
            Msg::Drain(_) => self.state == InstanceState::Draining,
            Msg::Stop(_) | Msg::Report(_) => false,
        }
    }

    fn waiting_mut(&mut self, process: Process) -> (waiting: &mut Waiting)
        ensures
            waiting@ == old(self)@.waiting(process),
            final(self)@ == old(self)@.with_waiting(process, final(waiting)@),
    {
        match process {
            Process::Drain => &mut self.drains,
            Process::Stop => &mut self.stops,
        }
    }

    fn notify(&mut self, process: Process)
        ensures
            final(self)@ == notifying(old(self)@, process),
    {
        let mut waiting = Waiting::nobody();
        std::mem::swap(&mut waiting, self.waiting_mut(process));
        self.queue = waiting.into_notices(process);
        self.work = Work::Notifying(process);
    }

    fn settle(&mut self)
        ensures
            final(self)@ == settled(old(self)@),
    {
        if self.queue.len() == 0 && self.pending == Pending::Nothing {
            match self.work {
                Work::Starting | Work::Resuming => {
                    self.state = InstanceState::Running;
                    self.work = Work::Idle;
                },
                Work::Pausing => {
                    self.state = InstanceState::Paused;
                    self.work = Work::Idle;
                },
                Work::Asking(process) => {
                    if self.expected(process) == 0 {
                        self.notify(process);
                    } else {
                        self.work = Work::Idle;
                    }
                },
                Work::Notifying(Process::Stop) | Work::Ended => {
                    self.work = Work::Ended;
                },
                Work::Notifying(Process::Drain) | Work::Reporting | Work::Idle => {
                    self.work = Work::Idle;
                },
            }
        }
    }

    fn set_out(&mut self, work: Work, plan: VecDeque<Action>)
        ensures
            final(self)@ == set_out(old(self)@, work, plan@),
    {
        self.work = work;
        self.queue = plan;
        self.settle();
    }

    fn join(&mut self, process: Process, sender: Sender<Notice>)
        ensures
            final(self)@ == joined(old(self)@, process, sender),
    {
        self.waiting_mut(process).senders.push(sender);
    }

    fn receive_msg(&mut self, msg: Msg)
        ensures
            final(self)@ == after_msg(old(self)@, msg),
    {
        if self.ignores(&msg) {
            return ;
        }
        match msg {
            Msg::Start => {
                let plan = self.topology.start_actions();
                self.set_out(Work::Starting, plan);
            },
            Msg::Pause => {
                let plan = self.topology.pause_actions();
                self.set_out(Work::Pausing, plan);
            },
            Msg::Resume => {
                let plan = self.topology.resume_actions();
                self.set_out(Work::Resuming, plan);
            },
            Msg::Drain(sender) => {
                self.join(Process::Drain, sender);
                let plan = self.topology.drain_actions();
                self.set_out(Work::Asking(Process::Drain), plan);
            },
            Msg::Stop(sender) => {
                self.join(Process::Stop, sender);
                let plan = self.topology.stop_actions();
                self.set_out(Work::Asking(Process::Stop), plan);
            },
            Msg::Report(sender) => {
                let report = StatusReport { url: self.url.clone(), status: self.state };
                let mut plan: VecDeque<Action> = VecDeque::new();
                plan.push_back(Action::SendReport(sender, report));
                assert(plan@ =~= seq![Action::SendReport(sender, report)]);
                self.set_out(Work::Reporting, plan);
            },
        }
    }

    fn receive_answer(&mut self, process: Process)
        ensures
            final(self)@ == answered(old(self)@, process),
    {
        let expected: usize = self.expected(process);
        if expected == 1 {
            // upon the last answer
            self.notify(process);
        } else {
            self.waiting_mut(process).expected = expected.saturating_sub(1);
        }
    }

    /// Takes the next input.
    pub fn receive(&mut self, input: Input)
        requires
            valid(old(self)@),
            old(self)@.work == Work::Idle,
        ensures
            final(self)@ == received(old(self)@, input),
            valid(final(self)@),
    {
        proof {
            law_received_valid(old(self)@, input);
        }
        match input {
            Input::Msg(msg) => self.receive_msg(msg),
            Input::DrainResult(_) => self.receive_answer(Process::Drain),
            Input::StopResult(_) => self.receive_answer(Process::Stop),
            Input::Closed => {
                self.work = Work::Ended;
            },
        }
    }

    /// Hands out what the task wants next.
    pub fn next(&mut self) -> (directive: Directive)
        requires
            valid(old(self)@),
            old(self)@.pending == Pending::Nothing,
        ensures
            valid(final(self)@),
            match directive {
                Directive::Receive => old(self)@.work == Work::Idle && final(self)@ == old(self)@,
                Directive::Finish => old(self)@.work == Work::Ended && final(self)@ == old(self)@,
                Directive::Perform(action) => {
                    &&& old(self)@.queue.len() > 0
                    &&& action == old(self)@.queue[0]
                    &&& final(self)@ == handed_out(old(self)@)
                },
            },
    {
        match self.queue.pop_front() {
            Some(action) => {
                self.pending = match &action {
                    Action::Ask(Kind::Connector, Command::Drain, _) => Pending::Part(
                        Process::Drain,
                    ),
                    Action::Ask(Kind::Connector, Command::Stop, _) => Pending::Part(Process::Stop),
                    Action::AwaitStarted(n) => Pending::Started(*n),
                    _ => Pending::Other,
                };
                assert(self@ =~= handed_out(old(self)@));
                Directive::Perform(action)
            },
            None => match self.work {
                Work::Ended => Directive::Finish,
                _ => Directive::Receive,
            },
        }
    }

    fn conclude(&mut self, outcome: Result<(), DeployError>)
        requires
            valid(old(self)@),
            old(self)@.pending != Pending::Nothing,
            outcome is Ok ==> (old(self)@.pending matches Pending::Part(process) ==> old(
                self,
            )@.waiting(process).expected < usize::MAX),
        ensures
            final(self)@ == informed(old(self)@, outcome),
            valid(final(self)@),
    {
        proof {
            law_informed_valid(old(self)@, outcome);
        }
        let pending = self.pending;
        self.pending = Pending::Nothing;
        match outcome {
            Err(error) => {
                if self.work == Work::Starting || self.work == Work::Pausing || self.work
                    == Work::Resuming {
                    self.work = Work::Ended;
                    self.queue = VecDeque::new();
                    self.result = Err(error);
                } else {
                    self.settle();
                }
            },
            Ok(_) => {
                if let Pending::Part(process) = pending {
                    let expected: usize = self.expected(process);
                    self.waiting_mut(process).expected = expected + 1;
                }
                self.settle();
            },
        }
    }

    /// Takes word of how the request that was handed out last went.
    pub fn inform(&mut self, outcome: Result<(), DeployError>)
        requires
            valid(old(self)@),
            old(self)@.pending is Part || old(self)@.pending is Other,
            outcome is Ok ==> (old(self)@.pending matches Pending::Part(process) ==> old(
                self,
            )@.waiting(process).expected < usize::MAX),
        ensures
            final(self)@ == informed(old(self)@, outcome),
            valid(final(self)@),
    {
        self.conclude(outcome);
    }

    /// Takes the responses of the connectors that the task waited for, one of
    /// each. All of them have to be successes for the flow to be started
    /// further.
    pub fn inform_started(&mut self, responses: Vec<Result<ConnectorResult, String>>)
        requires
            valid(old(self)@),
            old(self)@.pending == Pending::Started(responses@.len() as usize),
        ensures
            final(self)@ == informed(
                old(self)@,
                match outcome_of(responses@) {
                    Ok(_) => Ok(()),
                    Err(error) => Err(error),
                },
            ),
            valid(final(self)@),
    {
        match wait_for_responses(responses) {
            Ok(_) => self.conclude(Ok(())),
            Err(error) => self.conclude(Err(error)),
        }
    }

    /// What the task ended with.
    pub fn finish(self) -> (result: Result<(), DeployError>)
        requires
            self@.work == Work::Ended,
        ensures
            result == self@.result,
    {
        self.result
    }
}

} // verus!
