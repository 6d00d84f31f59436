use deployment::deployment::Deployment;
use deployment::error::DeployError;
use deployment::flow::{ConnectStmt, DeployEndpoint};
use deployment::link::{LinkAction, OutputTarget, PortUrl, LINK_TIMEOUT_SECS};
use deployment::registry::Registry;
use deployment::topology::Topology;

fn text(s: &str) -> String {
    s.to_string()
}

fn end(artefact: &str, instance: &str, port: &str) -> DeployEndpoint {
    DeployEndpoint { artefact: text(artefact), instance: text(instance), port: text(port) }
}

fn registry(instances: &[(&str, (u64, u64))]) -> Registry {
    let mut registry = Registry::empty();
    for (name, instance) in instances {
        registry.register(text(name), *instance);
    }
    registry
}

fn port_url(url: u64, port: &str) -> PortUrl {
    PortUrl { url, port: text(port) }
}

#[test]
fn connector_to_pipeline() {
    let connectors = registry(&[("c", (10, 11))]);
    let pipelines = registry(&[("p", (20, 21))]);
    let link = ConnectStmt::ConnectorToPipeline {
        from: end("file", "c", "out"),
        to: end("filter", "p", "in"),
    };
    assert_eq!(
        Deployment::link(&connectors, &pipelines, &link),
        Ok(vec![
            LinkAction::LinkConnector {
                connector: 11,
                port: text("out"),
                pipeline_url: port_url(20, "in"),
                pipeline: 21,
            },
            LinkAction::AwaitReply { timeout_secs: 2 },
        ])
    );
    assert_eq!(LINK_TIMEOUT_SECS, 2);
}

#[test]
fn pipeline_to_connector() {
    let connectors = registry(&[("c", (10, 11))]);
    let pipelines = registry(&[("p", (20, 21))]);
    let link = ConnectStmt::PipelineToConnector {
        from: end("filter", "p", "out"),
        to: end("file", "c", "in"),
    };
    assert_eq!(
        Deployment::link(&connectors, &pipelines, &link),
        Ok(vec![
            LinkAction::ResolveTarget { connector: 11 },
            LinkAction::ConnectOutput {
                pipeline: 21,
                port: text("out"),
                output_url: port_url(10, "in"),
                target: OutputTarget::Connector(11),
            },
            LinkAction::LinkConnector {
                connector: 11,
                port: text("in"),
                pipeline_url: port_url(20, "out"),
                pipeline: 21,
            },
            LinkAction::AwaitReply { timeout_secs: 2 },
        ])
    );
}

#[test]
fn pipeline_to_pipeline() {
    let connectors = Registry::empty();
    let pipelines = registry(&[("p", (20, 21)), ("q", (30, 31))]);
    let link = ConnectStmt::PipelineToPipeline {
        from: end("filter", "p", "out"),
        to: end("count", "q", "in"),
    };
    assert_eq!(
        Deployment::link(&connectors, &pipelines, &link),
        Ok(vec![LinkAction::ConnectOutput {
            pipeline: 21,
            port: text("out"),
            output_url: port_url(30, "in"),
            target: OutputTarget::Pipeline(31),
        }])
    );
}

#[test]
fn missing_ends_are_named_by_artefact() {
    let none = Registry::empty();
    let connectors = registry(&[("c", (10, 11))]);
    let pipelines = registry(&[("p", (20, 21))]);
    let inward = ConnectStmt::ConnectorToPipeline {
        from: end("file", "c", "out"),
        to: end("filter", "p", "in"),
    };
    let outward = ConnectStmt::PipelineToConnector {
        from: end("filter", "p", "out"),
        to: end("file", "c", "in"),
    };
    assert_eq!(
        Deployment::link(&none, &none, &inward),
        Err(DeployError::ConnectorNotFound(text("file")))
    );
    assert_eq!(
        Deployment::link(&connectors, &none, &inward),
        Err(DeployError::PipelineNotFound(text("filter")))
    );
    assert_eq!(
        Deployment::link(&none, &none, &outward),
        Err(DeployError::PipelineNotFound(text("filter")))
    );
    assert_eq!(
        Deployment::link(&none, &pipelines, &outward),
        Err(DeployError::ConnectorNotFound(text("file")))
    );
}

#[test]
fn missing_output_pipeline_is_named_by_its_feeder() {
    let pipelines = registry(&[("p", (20, 21))]);
    let link = ConnectStmt::PipelineToPipeline {
        from: end("filter", "p", "out"),
        to: end("count", "q", "in"),
    };
    assert_eq!(
        Deployment::link(&Registry::empty(), &pipelines, &link),
        Err(DeployError::PipelineNotFound(text("filter")))
    );
    assert_eq!(
        Deployment::link(&Registry::empty(), &Registry::empty(), &link),
        Err(DeployError::PipelineNotFound(text("filter")))
    );
}

#[test]
fn requests_fail_with_their_own_errors() {
    let reason = || text("gone");
    assert_eq!(
        LinkAction::ResolveTarget { connector: 1 }.fail(reason()),
        DeployError::Runtime(reason())
    );
    let output = LinkAction::ConnectOutput {
        pipeline: 1,
        port: text("out"),
        output_url: port_url(2, "in"),
        target: OutputTarget::Pipeline(3),
    };
    assert_eq!(output.clone(), output);
    assert_eq!(output.fail(reason()), DeployError::PipelineSend(reason()));
    let told = LinkAction::LinkConnector {
        connector: 1,
        port: text("in"),
        pipeline_url: port_url(2, "out"),
        pipeline: 3,
    };
    assert_eq!(told.clone(), told);
    assert_eq!(told.fail(reason()), DeployError::ConnectorSend(reason()));
    let reply = LinkAction::AwaitReply { timeout_secs: 2 };
    assert_eq!(reply.clone(), reply);
    assert_eq!(reply.fail(reason()), DeployError::Runtime(reason()));
}

#[test]
fn later_registration_replaces_earlier() {
    let connectors = registry(&[("c", (1, 2)), ("c", (10, 11))]);
    let pipelines = registry(&[("p", (20, 21))]);
    let link = ConnectStmt::ConnectorToPipeline {
        from: end("file", "c", "out"),
        to: end("filter", "p", "in"),
    };
    let plan = Deployment::link(&connectors, &pipelines, &link).unwrap();
    assert!(matches!(plan[0], LinkAction::LinkConnector { connector: 11, .. }));
}

#[test]
fn connectors_play_one_part_each() {
    let connectors =
        registry(&[("in", (0, 1)), ("both", (0, 2)), ("out", (0, 3)), ("idle", (0, 4))]);
    let pipelines = registry(&[("p", (0, 5)), ("q", (0, 6))]);
    let feeds = |name: &str| ConnectStmt::ConnectorToPipeline {
        from: end("x", name, "out"),
        to: end("y", "p", "in"),
    };
    let fed = |name: &str| ConnectStmt::PipelineToConnector {
        from: end("y", "q", "out"),
        to: end("x", name, "in"),
    };
    let between = ConnectStmt::PipelineToPipeline {
        from: end("y", "p", "out"),
        to: end("y", "q", "in"),
    };
    let links = vec![feeds("in"), feeds("in"), fed("both"), feeds("both"), between, fed("out")];
    let topology = Topology::new(&pipelines, &connectors, &links);
    assert_eq!(topology.start_points, vec![1]);
    assert_eq!(topology.mixed_pickles, vec![2]);
    assert_eq!(topology.end_points, vec![3]);
    assert_eq!(topology.unlinked, vec![4]);
    let mut all = topology.pipelines.clone();
    all.sort();
    assert_eq!(all, vec![5, 6]);
}
