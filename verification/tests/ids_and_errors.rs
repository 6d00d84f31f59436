use deployment::error::DeployError;
use deployment::flow::{ConnectorDecl, DeployEndpoint, DeployFlow, FlowDecl, Query};
use deployment::ids::{ConnectorId, DeploymentId, PipelineId};
use deployment::msg::{wait_for_responses, ConnectorResult};
use deployment::registry::second;
use deployment::startup::url_path;
use std::borrow::Borrow;

fn text(s: &str) -> String {
    s.to_string()
}

#[test]
fn deployment_is_named_by_its_flow() {
    let flow = DeployFlow {
        instance_id: text("main"),
        decl: FlowDecl { connectors: vec![], pipelines: vec![], links: vec![] },
    };
    let id = DeploymentId::from(&flow);
    assert_eq!(id, DeploymentId(text("main")));
    assert_eq!(id.clone(), id);
}

#[test]
fn instances_are_named_by_endpoint_and_declaration() {
    let end = DeployEndpoint {
        artefact: text("file"),
        instance: text("log"),
        port: text("out"),
    };
    assert_eq!(ConnectorId::from(&end), ConnectorId(text("log")));
    assert_eq!(PipelineId::from(&end), PipelineId(text("log")));
    let connector = ConnectorDecl { artefact_id: text("file"), instance_id: text("log") };
    assert_eq!(ConnectorId::from(&connector), ConnectorId(text("log")));
    let pipeline = Query { artifact_id: text("filter"), instance_id: text("f1") };
    assert_eq!(PipelineId::from(&pipeline), PipelineId(text("f1")));
}

#[test]
fn ids_borrow_as_their_text() {
    let connector = ConnectorId(text("log"));
    let borrowed: &str = connector.borrow();
    assert_eq!(borrowed, "log");
    let pipeline = PipelineId(text("f1"));
    let borrowed: &str = pipeline.borrow();
    assert_eq!(borrowed, "f1");
}

#[test]
fn ids_are_equal_by_text() {
    assert!(ConnectorId(text("log")) == ConnectorId(text("log")));
    assert!(ConnectorId(text("log")) != ConnectorId(text("logs")));
    assert!(PipelineId(text("f1")) == PipelineId(text("f1")));
    assert!(PipelineId(text("f1")) != PipelineId(text("f2")));
}

#[test]
fn second_is_the_right_half() {
    assert_eq!(*second(&(1, "two")), "two");
}

#[test]
fn pipeline_urls_are_paths() {
    let pipeline = Query { artifact_id: text("filter"), instance_id: text("f1") };
    assert_eq!(url_path(&pipeline), "/pipeline/filter/f1");
}

#[test]
fn errors_have_texts() {
    assert_eq!(
        DeployError::ConnectorNotFound(text("file")).message(),
        "FIXME: connector file not found"
    );
    assert_eq!(
        DeployError::PipelineNotFound(text("filter")).message(),
        "FIXME: pipeline filter not found"
    );
    assert_eq!(
        DeployError::ConnectorSend(text("closed")).message(),
        "Could not send to connector: closed"
    );
    assert_eq!(
        DeployError::PipelineSend(text("closed")).message(),
        "Could not send to pipeline: closed"
    );
    assert_eq!(DeployError::Runtime(text("timed out")).message(), "timed out");
}

fn response(res: Result<(), DeployError>) -> Result<ConnectorResult, String> {
    Ok(ConnectorResult { url: text("tremor://localhost/connector/file/log"), res })
}

#[test]
fn responses_succeed_together() {
    assert_eq!(wait_for_responses(vec![]), Ok(vec![]));
    assert_eq!(
        wait_for_responses(vec![response(Ok(())), response(Ok(()))]),
        Ok(vec![(), ()])
    );
}

#[test]
fn first_failed_response_counts() {
    let failed = || response(Err(DeployError::Runtime(text("no disk"))));
    let lost = || Err(text("channel closed"));
    assert_eq!(
        wait_for_responses(vec![response(Ok(())), failed(), lost()]),
        Err(DeployError::Runtime(text("no disk")))
    );
    assert_eq!(
        wait_for_responses(vec![lost(), failed()]),
        Err(DeployError::Runtime(text("channel closed")))
    );
}
