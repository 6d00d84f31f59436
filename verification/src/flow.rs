//! Declarations of a flow: the connectors and pipelines it is made of and the
//! links between them.
use vstd::prelude::*;

verus! {

/// One end of a link: a port of an instance of an artefact.
#[derive(Debug, PartialEq, Eq)]
pub struct DeployEndpoint {
    /// the artefact the instance was made from
    pub artefact: String,
    /// the instance, as the flow names it
    pub instance: String,
    /// the port of that instance
    pub port: String,
}

/// A link between two instances of a flow.
#[derive(Debug, PartialEq, Eq)]
pub enum ConnectStmt {
    /// events flow from a connector into a pipeline
    ConnectorToPipeline { from: DeployEndpoint, to: DeployEndpoint },
    /// events flow from a pipeline into a connector
    PipelineToConnector { from: DeployEndpoint, to: DeployEndpoint },
    /// events flow from one pipeline into another
    PipelineToPipeline { from: DeployEndpoint, to: DeployEndpoint },
}

/// Declaration of a connector instance.
#[derive(Debug, PartialEq, Eq)]
pub struct ConnectorDecl {
    pub artefact_id: String,
    pub instance_id: String,
}

/// Declaration of a pipeline instance.
#[derive(Debug, PartialEq, Eq)]
pub struct Query {
    pub artifact_id: String,
    pub instance_id: String,
}

/// The body of a flow.
#[derive(Debug, PartialEq, Eq)]
pub struct FlowDecl {
    pub connectors: Vec<ConnectorDecl>,
    pub pipelines: Vec<Query>,
    pub links: Vec<ConnectStmt>,
}

/// A flow that is to be deployed under the name `instance_id`.
#[derive(Debug, PartialEq, Eq)]
pub struct DeployFlow {
    pub instance_id: String,
    pub decl: FlowDecl,
}

} // verus!
