use async_std::channel::{unbounded, Receiver, Sender};
use deployment::deployment::Deployment;
use deployment::error::DeployError;
use deployment::flow::{ConnectStmt, DeployEndpoint};
use deployment::msg::{ConnectorResult, InstanceState, Msg, StatusReport};
use deployment::registry::Registry;
use deployment::task::{Action, Directive, FlowTask, Input, Kind, Process};

type Notice = Result<(), DeployError>;

fn text(s: &str) -> String {
    s.to_string()
}

fn end(instance: &str, port: &str) -> DeployEndpoint {
    DeployEndpoint { artefact: text("artefact"), instance: text(instance), port: text(port) }
}

/// A flow from connector 1 through connector 2 to connector 3, by way of pipeline 9.
fn links() -> Vec<ConnectStmt> {
    let feeds = |name: &str| ConnectStmt::ConnectorToPipeline {
        from: end(name, "out"),
        to: end("p", "in"),
    };
    let fed = |name: &str| ConnectStmt::PipelineToConnector {
        from: end("p", "out"),
        to: end(name, "in"),
    };
    vec![feeds("in"), feeds("both"), fed("both"), fed("out")]
}

fn task() -> FlowTask {
    let mut connectors = Registry::empty();
    connectors.register(text("in"), (0, 1));
    connectors.register(text("both"), (0, 2));
    connectors.register(text("out"), (0, 3));
    let mut pipelines = Registry::empty();
    pipelines.register(text("p"), (0, 9));
    Deployment::spawn_task(&pipelines, &connectors, &links())
}

fn empty_task() -> FlowTask {
    Deployment::spawn_task(&Registry::empty(), &Registry::empty(), &vec![])
}

fn show(action: &Action) -> String {
    match action {
        Action::Ask(Kind::Pipeline, command, address) => {
            format!("{:?} pipeline {}", command, address)
        }
        Action::Ask(Kind::Connector, command, address) => {
            format!("{:?} connector {}", command, address)
        }
        Action::AwaitStarted(n) => format!("await {}", n),
        Action::SendReport(_, report) => format!("report {:?}", report.status),
        Action::Notify(Process::Drain, _) => text("drained"),
        Action::Notify(Process::Stop, _) => text("stopped"),
    }
}

/// Hands `input` to the task and carries out what it asks for. The requests
/// named in `failing` fail.
fn round(task: &mut FlowTask, input: Input, failing: &[&str]) -> Vec<String> {
    assert!(matches!(task.next(), Directive::Receive));
    task.receive(input);
    let mut asked = Vec::new();
    loop {
        match task.next() {
            Directive::Perform(action) => {
                let name = show(&action);
                match action {
                    Action::AwaitStarted(n) => {
                        task.inform_started((0..n).map(|_| Ok(answer())).collect());
                        asked.push(name);
                        continue;
                    }
                    Action::Notify(_, sender) => sender.try_send(Ok(())).unwrap(),
                    Action::SendReport(sender, report) => sender.try_send(report).unwrap(),
                    Action::Ask(..) => {}
                }
                if failing.contains(&name.as_str()) {
                    task.inform(Err(DeployError::Runtime(text(&name))));
                } else {
                    task.inform(Ok(()));
                }
                asked.push(name);
            }
            _ => return asked,
        }
    }
}

fn notice() -> (Sender<Notice>, Receiver<Notice>) {
    unbounded()
}

fn answer() -> ConnectorResult {
    ConnectorResult { url: text("tremor://localhost/connector/artefact/in"), res: Ok(()) }
}

fn failed_answer() -> ConnectorResult {
    ConnectorResult {
        url: text("tremor://localhost/connector/artefact/in"),
        res: Err(DeployError::Runtime(text("broken"))),
    }
}

const START: [&str; 8] = [
    "Start pipeline 9",
    "Start connector 3",
    "await 1",
    "Start connector 2",
    "await 1",
    "Start connector 1",
    "await 1",
    "await 0",
];

#[test]
fn start_goes_from_sinks_to_sources() {
    let mut task = task();
    assert_eq!(task.state(), InstanceState::Initialized);
    assert_eq!(round(&mut task, Input::Msg(Msg::Start), &[]), START);
    assert_eq!(task.state(), InstanceState::Running);
}

#[test]
fn start_of_an_empty_flow_awaits_nobody() {
    let mut task = empty_task();
    let asked = round(&mut task, Input::Msg(Msg::Start), &[]);
    assert_eq!(asked, ["await 0"; 4]);
    assert_eq!(task.state(), InstanceState::Running);
}

#[test]
fn second_start_is_ignored() {
    let mut task = task();
    round(&mut task, Input::Msg(Msg::Start), &[]);
    assert!(round(&mut task, Input::Msg(Msg::Start), &[]).is_empty());
    assert_eq!(task.state(), InstanceState::Running);
}

#[test]
fn failed_start_ends_the_task() {
    let mut task = task();
    let asked = round(&mut task, Input::Msg(Msg::Start), &["Start connector 2"]);
    assert_eq!(asked, START[..4]);
    assert_eq!(task.state(), InstanceState::Initialized);
    assert!(matches!(task.next(), Directive::Finish));
    assert_eq!(task.finish(), Err(DeployError::Runtime(text("Start connector 2"))));
}

#[test]
fn connector_that_does_not_start_ends_the_task() {
    let mut task = task();
    task.receive(Input::Msg(Msg::Start));
    loop {
        match task.next() {
            Directive::Perform(Action::AwaitStarted(1)) => break,
            Directive::Perform(_) => task.inform(Ok(())),
            other => panic!("unexpected: {:?}", other),
        }
    }
    task.inform_started(vec![Ok(answer())]);
    assert!(matches!(task.next(), Directive::Perform(Action::Ask(Kind::Connector, _, 2))));
    task.inform(Ok(()));
    assert!(matches!(task.next(), Directive::Perform(Action::AwaitStarted(1))));
    task.inform_started(vec![Ok(failed_answer())]);
    assert!(matches!(task.next(), Directive::Finish));
    assert_eq!(task.state(), InstanceState::Initialized);
    assert_eq!(task.finish(), Err(DeployError::Runtime(text("broken"))));
}

const PAUSE: [&str; 4] =
    ["Pause connector 1", "Pause connector 2", "Pause connector 3", "Pause pipeline 9"];

const RESUME: [&str; 4] =
    ["Resume pipeline 9", "Resume connector 3", "Resume connector 2", "Resume connector 1"];

#[test]
fn pause_goes_from_sources_to_sinks() {
    let mut task = task();
    assert!(task.ignores(&Msg::Pause));
    assert!(round(&mut task, Input::Msg(Msg::Pause), &[]).is_empty());
    round(&mut task, Input::Msg(Msg::Start), &[]);
    assert!(!task.ignores(&Msg::Pause));
    assert_eq!(round(&mut task, Input::Msg(Msg::Pause), &[]), PAUSE);
    assert_eq!(task.state(), InstanceState::Paused);
    assert!(round(&mut task, Input::Msg(Msg::Pause), &[]).is_empty());
}

#[test]
fn failed_pause_ends_the_task() {
    let mut task = task();
    round(&mut task, Input::Msg(Msg::Start), &[]);
    let asked = round(&mut task, Input::Msg(Msg::Pause), &["Pause connector 1"]);
    assert_eq!(asked, ["Pause connector 1"]);
    assert!(matches!(task.next(), Directive::Finish));
    assert_eq!(task.finish(), Err(DeployError::Runtime(text("Pause connector 1"))));
}

#[test]
fn resume_is_ignored_while_not_paused() {
    let mut task = task();
    assert!(task.ignores(&Msg::Resume));
    assert!(round(&mut task, Input::Msg(Msg::Resume), &[]).is_empty());
    round(&mut task, Input::Msg(Msg::Start), &[]);
    assert!(round(&mut task, Input::Msg(Msg::Resume), &[]).is_empty());
    assert_eq!(task.state(), InstanceState::Running);
}

#[test]
fn resume_mirrors_pause() {
    let mut task = task();
    round(&mut task, Input::Msg(Msg::Start), &[]);
    round(&mut task, Input::Msg(Msg::Pause), &[]);
    assert!(!task.ignores(&Msg::Resume));
    assert_eq!(round(&mut task, Input::Msg(Msg::Resume), &[]), RESUME);
    assert_eq!(task.state(), InstanceState::Running);
    assert_eq!(round(&mut task, Input::Msg(Msg::Pause), &[]), PAUSE);
}

#[test]
fn failed_resume_ends_the_task() {
    let mut task = task();
    round(&mut task, Input::Msg(Msg::Start), &[]);
    round(&mut task, Input::Msg(Msg::Pause), &[]);
    let asked = round(&mut task, Input::Msg(Msg::Resume), &["Resume connector 3"]);
    assert_eq!(asked, RESUME[..2]);
    assert_eq!(task.state(), InstanceState::Paused);
    assert_eq!(task.finish(), Err(DeployError::Runtime(text("Resume connector 3"))));
}

#[test]
fn connectors_without_links_are_asked_too() {
    let mut connectors = Registry::empty();
    connectors.register(text("in"), (0, 1));
    connectors.register(text("idle"), (0, 4));
    let mut pipelines = Registry::empty();
    pipelines.register(text("p"), (0, 9));
    let links = vec![ConnectStmt::ConnectorToPipeline {
        from: end("in", "out"),
        to: end("p", "in"),
    }];
    let mut task = Deployment::spawn_task(&pipelines, &connectors, &links);
    assert_eq!(
        round(&mut task, Input::Msg(Msg::Start), &[]),
        [
            "Start pipeline 9",
            "await 0",
            "await 0",
            "Start connector 1",
            "await 1",
            "Start connector 4",
            "await 1"
        ]
    );
    assert_eq!(
        round(&mut task, Input::Msg(Msg::Pause), &[]),
        ["Pause connector 4", "Pause connector 1", "Pause pipeline 9"]
    );
    assert_eq!(
        round(&mut task, Input::Msg(Msg::Resume), &[]),
        ["Resume pipeline 9", "Resume connector 1", "Resume connector 4"]
    );
    let (drain, _drained) = notice();
    assert_eq!(
        round(&mut task, Input::Msg(Msg::Drain(drain)), &[]),
        ["Drain connector 1", "Drain connector 4"]
    );
    let (stop, _stopped) = notice();
    assert_eq!(
        round(&mut task, Input::Msg(Msg::Stop(stop)), &[]),
        ["Stop connector 1", "Stop connector 4", "Stop pipeline 9"]
    );
}

#[test]
fn drain_notifies_after_the_last_answer() {
    let mut task = task();
    let (sender, receiver) = notice();
    let asked = round(&mut task, Input::Msg(Msg::Drain(sender)), &[]);
    assert_eq!(asked, ["Drain connector 1", "Drain connector 2", "Drain connector 3"]);
    assert_eq!(task.expected(Process::Drain), 3);
    assert!(round(&mut task, Input::DrainResult(answer()), &[]).is_empty());
    assert!(round(&mut task, Input::DrainResult(failed_answer()), &[]).is_empty());
    assert!(receiver.try_recv().is_err());
    assert_eq!(round(&mut task, Input::DrainResult(answer()), &[]), ["drained"]);
    assert_eq!(receiver.try_recv(), Ok(Ok(())));
    assert!(receiver.try_recv().is_err());
    assert_eq!(task.expected(Process::Drain), 0);
    assert!(round(&mut task, Input::DrainResult(answer()), &[]).is_empty());
}

#[test]
fn connectors_that_refuse_to_drain_are_not_awaited() {
    let mut task = task();
    let (sender, receiver) = notice();
    let refusing = ["Drain connector 1", "Drain connector 3"];
    let asked = round(&mut task, Input::Msg(Msg::Drain(sender)), &refusing);
    assert_eq!(asked.len(), 3);
    assert_eq!(task.expected(Process::Drain), 1);
    assert_eq!(round(&mut task, Input::DrainResult(answer()), &[]), ["drained"]);
    assert_eq!(receiver.try_recv(), Ok(Ok(())));
}

#[test]
fn drain_of_nothing_is_done_at_once() {
    let mut task = empty_task();
    let (sender, receiver) = notice();
    assert_eq!(round(&mut task, Input::Msg(Msg::Drain(sender)), &[]), ["drained"]);
    assert_eq!(receiver.try_recv(), Ok(Ok(())));
    assert!(round(&mut task, Input::DrainResult(answer()), &[]).is_empty());
    assert!(receiver.try_recv().is_err());
}

#[test]
fn stop_of_nothing_is_done_at_once() {
    let mut task = empty_task();
    let (drain, drained) = notice();
    round(&mut task, Input::Msg(Msg::Drain(drain)), &[]);
    let (sender, receiver) = notice();
    assert_eq!(round(&mut task, Input::Msg(Msg::Stop(sender)), &[]), ["stopped"]);
    assert_eq!(drained.try_recv(), Ok(Ok(())));
    assert_eq!(receiver.try_recv(), Ok(Ok(())));
    assert!(matches!(task.next(), Directive::Finish));
    assert_eq!(task.finish(), Ok(()));
}

#[test]
fn drain_that_all_refuse_is_done_at_once() {
    let mut task = task();
    let (sender, receiver) = notice();
    let refusing = ["Drain connector 1", "Drain connector 2", "Drain connector 3"];
    let asked = round(&mut task, Input::Msg(Msg::Drain(sender)), &refusing);
    assert_eq!(asked, [&refusing[..], &["drained"]].concat());
    assert_eq!(receiver.try_recv(), Ok(Ok(())));
}

#[test]
fn stop_that_all_refuse_ends_the_task() {
    let mut task = task();
    let (sender, receiver) = notice();
    let refusing = ["Stop connector 3", "Stop connector 1", "Stop connector 2"];
    let asked = round(&mut task, Input::Msg(Msg::Stop(sender)), &refusing);
    assert_eq!(asked, [&refusing[..], &["Stop pipeline 9", "stopped"]].concat());
    assert_eq!(receiver.try_recv(), Ok(Ok(())));
    assert!(matches!(task.next(), Directive::Finish));
    assert_eq!(task.finish(), Ok(()));
}

#[test]
fn refused_drain_waits_for_an_earlier_one() {
    let mut task = task();
    let (first, first_receiver) = notice();
    let (second, second_receiver) = notice();
    let refusing = ["Drain connector 1", "Drain connector 2"];
    round(&mut task, Input::Msg(Msg::Drain(first)), &refusing);
    let refusing = ["Drain connector 1", "Drain connector 2", "Drain connector 3"];
    round(&mut task, Input::Msg(Msg::Drain(second)), &refusing);
    assert!(second_receiver.try_recv().is_err());
    assert_eq!(round(&mut task, Input::DrainResult(answer()), &[]), ["drained", "drained"]);
    assert_eq!(first_receiver.try_recv(), Ok(Ok(())));
    assert_eq!(second_receiver.try_recv(), Ok(Ok(())));
}

#[test]
fn overlapping_drains_are_done_together() {
    let mut task = task();
    let (first, first_receiver) = notice();
    let (second, second_receiver) = notice();
    round(&mut task, Input::Msg(Msg::Drain(first)), &[]);
    assert!(round(&mut task, Input::DrainResult(answer()), &[]).is_empty());
    round(&mut task, Input::Msg(Msg::Drain(second)), &["drained"]);
    assert_eq!(task.expected(Process::Drain), 5);
    for _ in 0..4 {
        assert!(round(&mut task, Input::DrainResult(answer()), &[]).is_empty());
    }
    let asked = round(&mut task, Input::DrainResult(answer()), &["drained"]);
    assert_eq!(asked, ["drained", "drained"]);
    assert_eq!(first_receiver.try_recv(), Ok(Ok(())));
    assert_eq!(second_receiver.try_recv(), Ok(Ok(())));
}

#[test]
fn stop_notifies_and_ends_the_task() {
    let mut task = task();
    round(&mut task, Input::Msg(Msg::Start), &[]);
    let (sender, receiver) = notice();
    let asked = round(&mut task, Input::Msg(Msg::Stop(sender)), &["Stop pipeline 9"]);
    assert_eq!(
        asked,
        ["Stop connector 3", "Stop connector 1", "Stop connector 2", "Stop pipeline 9"]
    );
    assert_eq!(task.expected(Process::Stop), 3);
    round(&mut task, Input::StopResult(answer()), &[]);
    round(&mut task, Input::StopResult(failed_answer()), &[]);
    assert!(receiver.try_recv().is_err());
    assert_eq!(round(&mut task, Input::StopResult(answer()), &["stopped"]), ["stopped"]);
    assert_eq!(receiver.try_recv(), Ok(Ok(())));
    assert!(matches!(task.next(), Directive::Finish));
    assert_eq!(task.finish(), Ok(()));
}

#[test]
fn stop_leaves_a_drain_alone() {
    let mut task = task();
    let (drain, drained) = notice();
    let (stop, _stopped) = notice();
    round(&mut task, Input::Msg(Msg::Drain(drain)), &[]);
    round(&mut task, Input::Msg(Msg::Stop(stop)), &["Stop connector 1"]);
    assert_eq!(task.expected(Process::Drain), 3);
    assert_eq!(task.expected(Process::Stop), 2);
    round(&mut task, Input::StopResult(answer()), &[]);
    for _ in 0..3 {
        round(&mut task, Input::DrainResult(answer()), &[]);
    }
    assert_eq!(drained.try_recv(), Ok(Ok(())));
    assert_eq!(task.expected(Process::Stop), 1);
}

#[test]
fn report_tells_the_state() {
    let mut task = task();
    let (sender, receiver) = unbounded::<StatusReport>();
    let asked = round(&mut task, Input::Msg(Msg::Report(sender.clone())), &["report Initialized"]);
    assert_eq!(asked, ["report Initialized"]);
    let report = receiver.try_recv().unwrap();
    assert_eq!(report.status, InstanceState::Initialized);
    assert_eq!(report.url, "tremor://localhost/binding/FIXME/FIXME/FIXME");
    round(&mut task, Input::Msg(Msg::Start), &[]);
    round(&mut task, Input::Msg(Msg::Report(sender.clone())), &[]);
    assert_eq!(receiver.try_recv().unwrap().status, InstanceState::Running);
    round(&mut task, Input::Msg(Msg::Pause), &[]);
    round(&mut task, Input::Msg(Msg::Report(sender)), &[]);
    assert_eq!(receiver.try_recv().unwrap().status, InstanceState::Paused);
}

#[test]
fn closed_input_ends_the_task() {
    let mut task = task();
    assert!(round(&mut task, Input::Closed, &[]).is_empty());
    assert!(matches!(task.next(), Directive::Finish));
    assert_eq!(task.finish(), Ok(()));
}
