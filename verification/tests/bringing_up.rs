use deployment::deployment::Deployment;
use deployment::error::DeployError;
use deployment::flow::{ConnectStmt, ConnectorDecl, DeployEndpoint, DeployFlow, FlowDecl, Query};
use deployment::msg::InstanceState;
use deployment::startup::{Stage, Startup, Step};

fn text(s: &str) -> String {
    s.to_string()
}

fn end(artefact: &str, instance: &str, port: &str) -> DeployEndpoint {
    DeployEndpoint { artefact: text(artefact), instance: text(instance), port: text(port) }
}

fn flow() -> DeployFlow {
    DeployFlow {
        instance_id: text("main"),
        decl: FlowDecl {
            connectors: vec![
                ConnectorDecl { artefact_id: text("file"), instance_id: text("c") },
                ConnectorDecl { artefact_id: text("http"), instance_id: text("d") },
            ],
            pipelines: vec![Query { artifact_id: text("filter"), instance_id: text("p") }],
            links: vec![
                ConnectStmt::ConnectorToPipeline {
                    from: end("file", "c", "out"),
                    to: end("filter", "p", "in"),
                },
                ConnectStmt::PipelineToConnector {
                    from: end("filter", "p", "out"),
                    to: end("http", "d", "in"),
                },
            ],
        },
    }
}

/// Takes the next step, which goes well, and tells what it was.
fn advance(startup: &mut Startup, spawned: &mut u64) -> String {
    match startup.next() {
        Step::SpawnConnector { decl, artefact, instance } => {
            *spawned += 1;
            startup.spawned(Ok((*spawned, *spawned + 100)));
            format!("connector {} {} {}", decl, artefact, instance)
        }
        Step::SpawnPipeline { decl, src, path } => {
            *spawned += 1;
            startup.spawned(Ok((*spawned, *spawned + 100)));
            format!("pipeline {} {} {}", decl, src, path)
        }
        Step::Link(action) => {
            startup.done(Ok(()));
            format!("{:?}", action)
        }
        Step::SpawnTask(task) => {
            startup.done(Ok(()));
            assert_eq!(task.state(), InstanceState::Initialized);
            format!("task {:?}", task.topology())
        }
        Step::SendStart => {
            startup.done(Ok(()));
            text("start")
        }
        Step::Finish => text("finish"),
    }
}

#[test]
fn flow_comes_up_step_by_step() {
    let mut startup = Deployment::start(text("src"), flow());
    let mut spawned = 0;
    let mut steps = Vec::new();
    while startup.stage() != Stage::Finished {
        steps.push(advance(&mut startup, &mut spawned));
    }
    assert_eq!(
        steps,
        [
            "connector 0 file c",
            "connector 1 http d",
            "pipeline 0 src /pipeline/filter/p",
            "LinkConnector { connector: 101, port: \"out\", pipeline_url: PortUrl { url: 3, port: \"in\" }, pipeline: 103 }",
            "AwaitReply { timeout_secs: 2 }",
            "ResolveTarget { connector: 102 }",
            "ConnectOutput { pipeline: 103, port: \"out\", output_url: PortUrl { url: 2, port: \"in\" }, target: Connector(102) }",
            "LinkConnector { connector: 102, port: \"in\", pipeline_url: PortUrl { url: 3, port: \"out\" }, pipeline: 103 }",
            "AwaitReply { timeout_secs: 2 }",
            "task Topology { pipelines: [103], start_points: [101], mixed_pickles: [], end_points: [102], unlinked: [] }",
            "start",
        ]
    );
    assert!(matches!(startup.next(), Step::Finish));
    let deployment = startup.finish().unwrap();
    assert_eq!(deployment.links, flow().decl.links);
}

#[test]
fn empty_flow_comes_up() {
    let nothing = DeployFlow {
        instance_id: text("none"),
        decl: FlowDecl { connectors: vec![], pipelines: vec![], links: vec![] },
    };
    let mut startup = Deployment::start(text(""), nothing);
    assert_eq!(startup.stage(), Stage::Task);
    let mut spawned = 0;
    advance(&mut startup, &mut spawned);
    assert_eq!(advance(&mut startup, &mut spawned), "start");
    assert!(startup.finish().unwrap().links.is_empty());
}

/// Brings `flow` up as far as `good` steps, lets the next one fail, and gives the error.
fn failing_after(good: usize) -> DeployError {
    let mut startup = Deployment::start(text("src"), flow());
    let mut spawned = 0;
    for _ in 0..good {
        advance(&mut startup, &mut spawned);
    }
    match startup.stage() {
        Stage::Connector(_) | Stage::Pipeline(_) => startup.spawned(Err(text("bad luck"))),
        _ => startup.done(Err(text("bad luck"))),
    }
    assert_eq!(startup.stage(), Stage::Finished);
    startup.finish().unwrap_err()
}

#[test]
fn any_failure_ends_the_deployment() {
    let reason = || text("bad luck");
    assert_eq!(failing_after(0), DeployError::Runtime(reason()));
    assert_eq!(failing_after(1), DeployError::Runtime(reason()));
    assert_eq!(failing_after(2), DeployError::Runtime(reason()));
    assert_eq!(failing_after(3), DeployError::ConnectorSend(reason()));
    assert_eq!(failing_after(4), DeployError::Runtime(reason()));
    assert_eq!(failing_after(5), DeployError::Runtime(reason()));
    assert_eq!(failing_after(6), DeployError::PipelineSend(reason()));
    assert_eq!(failing_after(7), DeployError::ConnectorSend(reason()));
    assert_eq!(failing_after(8), DeployError::Runtime(reason()));
    assert_eq!(failing_after(9), DeployError::Runtime(reason()));
    assert_eq!(failing_after(10), DeployError::Runtime(reason()));
}

#[test]
fn undeclared_end_fails_at_its_link() {
    let mut broken = flow();
    broken.decl.links.push(ConnectStmt::ConnectorToPipeline {
        from: end("kafka", "k", "out"),
        to: end("filter", "p", "in"),
    });
    let mut startup = Deployment::start(text("src"), broken);
    let mut spawned = 0;
    let mut steps = 0;
    while startup.stage() != Stage::Finished {
        advance(&mut startup, &mut spawned);
        steps += 1;
    }
    assert_eq!(steps, 3 + 2 + 4);
    assert_eq!(startup.finish().unwrap_err(), DeployError::ConnectorNotFound(text("kafka")));
}

#[test]
fn undeclared_end_of_the_first_link_fails_at_once() {
    let broken = DeployFlow {
        instance_id: text("main"),
        decl: FlowDecl {
            connectors: vec![],
            pipelines: vec![],
            links: vec![ConnectStmt::PipelineToPipeline {
                from: end("filter", "p", "out"),
                to: end("count", "q", "in"),
            }],
        },
    };
    let startup = Deployment::start(text("src"), broken);
    assert_eq!(startup.stage(), Stage::Finished);
    assert_eq!(startup.finish().unwrap_err(), DeployError::PipelineNotFound(text("filter")));
}

#[test]
fn last_of_two_connectors_of_one_name_is_linked() {
    let mut twice = flow();
    twice.decl.connectors[1].instance_id = text("c");
    twice.decl.links.pop();
    let mut startup = Deployment::start(text("src"), twice);
    let mut spawned = 0;
    for _ in 0..3 {
        advance(&mut startup, &mut spawned);
    }
    let told = advance(&mut startup, &mut spawned);
    assert!(told.starts_with("LinkConnector { connector: 102,"));
}
