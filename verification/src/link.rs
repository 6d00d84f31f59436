//! Linking two instances of a flow.
//!
//! Linking is a short sequence of requests to the runtime. The sequence is
//! fixed once both ends of the link have been found; the first request that
//! fails ends it.
use crate::deployment::Deployment;
use crate::error::DeployError;
use crate::flow::{ConnectStmt, DeployEndpoint};
use crate::registry::{Instances, Registry};
use vstd::prelude::*;

verus! {

/// How many seconds a connector has to answer a request to link.
pub const LINK_TIMEOUT_SECS: u64 = 2;

/// The URL that the handle `url` stands for, with its port set to `port`.
#[derive(Debug, PartialEq, Eq)]
pub struct PortUrl {
    pub url: u64,
    pub port: String,
}

/// The address a pipeline sends its output to.
#[derive(Debug, PartialEq, Eq, Clone, Copy)]
pub enum OutputTarget {
    /// the sink of the connector at this address
    Connector(u64),
    /// the pipeline at this address
    Pipeline(u64),
}

/// A request to the runtime while two instances are linked.
#[derive(Debug, PartialEq, Eq)]
pub enum LinkAction {
    /// make the connector at this address an output target, which fails
    /// where it cannot be one
    ResolveTarget { connector: u64 },
    /// tell `pipeline` to send what leaves `port` to `target`, known as `output_url`
    ConnectOutput { pipeline: u64, port: String, output_url: PortUrl, target: OutputTarget },
    /// tell `connector` to link its `port` to one pipeline, `pipeline`, known
    /// as `pipeline_url`
    LinkConnector { connector: u64, port: String, pipeline_url: PortUrl, pipeline: u64 },
    /// wait for the connector's answer, this many seconds at most
    AwaitReply { timeout_secs: u64 },
}

impl Clone for PortUrl {
    fn clone(&self) -> (copy: Self)
        ensures
            copy == *self,
    {
        PortUrl { url: self.url, port: self.port.clone() }
    }
}

impl Clone for LinkAction {
    fn clone(&self) -> (copy: Self)
        ensures
            copy == *self,
    {
        match self {
            LinkAction::ResolveTarget { connector } => LinkAction::ResolveTarget {
                connector: *connector,
            },
            LinkAction::ConnectOutput { pipeline, port, output_url, target } => {
                LinkAction::ConnectOutput {
                    pipeline: *pipeline,
                    port: port.clone(),
                    output_url: output_url.clone(),
                    target: *target,
                }
            },
            LinkAction::LinkConnector { connector, port, pipeline_url, pipeline } => {
                LinkAction::LinkConnector {
                    connector: *connector,
                    port: port.clone(),
                    pipeline_url: pipeline_url.clone(),
                    pipeline: *pipeline,
                }
            },
            LinkAction::AwaitReply { timeout_secs } => LinkAction::AwaitReply {
                timeout_secs: *timeout_secs,
            },
        }
    }
}

impl LinkAction {
    /// The error of a link whose request `self` failed for `reason`.
    pub open spec fn failure(self, reason: String) -> DeployError {
        match self {
            LinkAction::ResolveTarget { .. } => DeployError::Runtime(reason),
            LinkAction::ConnectOutput { .. } => DeployError::PipelineSend(reason),
            LinkAction::LinkConnector { .. } => DeployError::ConnectorSend(reason),
            LinkAction::AwaitReply { .. } => DeployError::Runtime(reason),
        }
    }

    /// The error of a link whose request `self` failed for `reason`.
    pub fn fail(&self, reason: String) -> (error: DeployError)
        ensures
            error == self.failure(reason),
    {
        match self {
            LinkAction::ResolveTarget { .. } => DeployError::Runtime(reason),
            LinkAction::ConnectOutput { .. } => DeployError::PipelineSend(reason),
            LinkAction::LinkConnector { .. } => DeployError::ConnectorSend(reason),
            LinkAction::AwaitReply { .. } => DeployError::Runtime(reason),
        }
    }
}

/// Whether an instance runs under the name that `end` gives.
pub open spec fn known(instances: Instances, end: DeployEndpoint) -> bool {
    instances.contains_key(end.instance@)
}

/// The URL of the instance at `end`, with the port of `end`.
pub open spec fn port_url(instances: Instances, end: DeployEndpoint) -> PortUrl {
    PortUrl { url: instances[end.instance@].0, port: end.port }
}

/// The address of the instance at `end`.
pub open spec fn address(instances: Instances, end: DeployEndpoint) -> u64 {
    instances[end.instance@].1
}

/// The requests that link what `link` names, or why it cannot be linked.
///
/// A connector is told of a pipeline and answers. A pipeline is told of its
/// output, without an answer; where that output is a connector, the connector
/// is told of the pipeline afterwards.
pub open spec fn link_plan(
    connectors: Instances,
    pipelines: Instances,
    link: ConnectStmt,
) -> Result<Seq<LinkAction>, DeployError> {
    match link {
        ConnectStmt::ConnectorToPipeline { from, to } => {
            if !known(connectors, from) {
                Err(DeployError::ConnectorNotFound(from.artefact))
            } else if !known(pipelines, to) {
                Err(DeployError::PipelineNotFound(to.artefact))
            } else {
                Ok(
                    seq![
                        LinkAction::LinkConnector {
                            connector: address(connectors, from),
                            port: from.port,
                            pipeline_url: port_url(pipelines, to),
                            pipeline: address(pipelines, to),
                        },
                        LinkAction::AwaitReply { timeout_secs: LINK_TIMEOUT_SECS },
                    ],
                )
            }
        },
        ConnectStmt::PipelineToConnector { from, to } => {
            if !known(pipelines, from) {
                Err(DeployError::PipelineNotFound(from.artefact))
            } else if !known(connectors, to) {
                Err(DeployError::ConnectorNotFound(to.artefact))
            } else {
                Ok(
                    seq![
                        LinkAction::ResolveTarget { connector: address(connectors, to) },
                        LinkAction::ConnectOutput {
                            pipeline: address(pipelines, from),
                            port: from.port,
                            output_url: port_url(connectors, to),
                            target: OutputTarget::Connector(address(connectors, to)),
                        },
                        LinkAction::LinkConnector {
                            connector: address(connectors, to),
                            port: to.port,
                            pipeline_url: port_url(pipelines, from),
                            pipeline: address(pipelines, from),
                        },
                        LinkAction::AwaitReply { timeout_secs: LINK_TIMEOUT_SECS },
                    ],
                )
            }
        },
        ConnectStmt::PipelineToPipeline { from, to } => {
            if !known(pipelines, from) {
                Err(DeployError::PipelineNotFound(from.artefact))
            } else if !known(pipelines, to) {
                Err(DeployError::PipelineNotFound(from.artefact))
            } else {
                Ok(
                    seq![
                        LinkAction::ConnectOutput {
                            pipeline: address(pipelines, from),
                            port: from.port,
                            output_url: port_url(pipelines, to),
                            target: OutputTarget::Pipeline(address(pipelines, to)),
                        },
                    ],
                )
            }
        },
    }
}

impl Deployment {
    /// Finds both ends of `link` and lays out the requests that link them.
    pub fn link(connectors: &Registry, pipelines: &Registry, link: &ConnectStmt) -> (plan: Result<
        Vec<LinkAction>,
        DeployError,
    >)
        ensures
            match plan {
                Ok(actions) => link_plan(connectors@, pipelines@, *link) == Ok::<
                    Seq<LinkAction>,
                    DeployError,
                >(actions@),
                Err(error) => link_plan(connectors@, pipelines@, *link) == Err::<
                    Seq<LinkAction>,
                    DeployError,
                >(error),
            },
    {
        let mut actions: Vec<LinkAction> = Vec::new();
        match link {
            ConnectStmt::ConnectorToPipeline { from, to } => {
                let connector = match connectors.get(from.instance.as_str()) {
                    Some((_, connector)) => connector,
                    None => return Err(DeployError::ConnectorNotFound(from.artefact.clone())),
                };
                let (pipeline_url, pipeline) = match pipelines.get(to.instance.as_str()) {
                    Some(pipeline) => pipeline,
                    None => return Err(DeployError::PipelineNotFound(to.artefact.clone())),
                };
                actions.push(
                    LinkAction::LinkConnector {
                        connector,
                        port: from.port.clone(),
                        pipeline_url: PortUrl { url: pipeline_url, port: to.port.clone() },
                        pipeline,
                    },
                );
                actions.push(LinkAction::AwaitReply { timeout_secs: LINK_TIMEOUT_SECS });
            },
            ConnectStmt::PipelineToConnector { from, to } => {
                let (pipeline_url, pipeline) = match pipelines.get(from.instance.as_str()) {
                    Some(pipeline) => pipeline,
                    None => return Err(DeployError::PipelineNotFound(from.artefact.clone())),
                };
                let (connector_url, connector) = match connectors.get(to.instance.as_str()) {
                    Some(connector) => connector,
                    None => return Err(DeployError::ConnectorNotFound(to.artefact.clone())),
                };
                // first link the pipeline to the connector
                actions.push(LinkAction::ResolveTarget { connector });
                actions.push(
                    LinkAction::ConnectOutput {
                        pipeline,
                        port: from.port.clone(),
                        output_url: PortUrl { url: connector_url, port: to.port.clone() },
                        target: OutputTarget::Connector(connector),
                    },
                );
                // then link the connector to the pipeline
                actions.push(
                    LinkAction::LinkConnector {
                        connector,
                        port: to.port.clone(),
                        pipeline_url: PortUrl { url: pipeline_url, port: from.port.clone() },
                        pipeline,
                    },
                );
                actions.push(LinkAction::AwaitReply { timeout_secs: LINK_TIMEOUT_SECS });
            },
            ConnectStmt::PipelineToPipeline { from, to } => {
                let pipeline = match pipelines.get(from.instance.as_str()) {
                    Some((_, pipeline)) => pipeline,
                    None => return Err(DeployError::PipelineNotFound(from.artefact.clone())),
                };
                let (output_url, output) = match pipelines.get(to.instance.as_str()) {
                    Some(output) => output,
                    None => return Err(DeployError::PipelineNotFound(from.artefact.clone())),
                };
                actions.push(
                    LinkAction::ConnectOutput {
                        pipeline,
                        port: from.port.clone(),
                        output_url: PortUrl { url: output_url, port: to.port.clone() },
                        target: OutputTarget::Pipeline(output),
                    },
                );
            },
        }
        assert(actions@ == link_plan(connectors@, pipelines@, *link)->Ok_0);
        Ok(actions)
    }
}

/// A link has a plan just where an instance runs at both of its ends, and a
/// plan asks for something.
pub proof fn law_link_plans_exactly_the_known(
    connectors: Instances,
    pipelines: Instances,
    link: ConnectStmt,
)
    ensures
        link_plan(connectors, pipelines, link) is Ok <==> match link {
            ConnectStmt::ConnectorToPipeline { from, to } => known(connectors, from) && known(
                pipelines,
                to,
            ),
            ConnectStmt::PipelineToConnector { from, to } => known(pipelines, from) && known(
                connectors,
                to,
            ),
            ConnectStmt::PipelineToPipeline { from, to } => known(pipelines, from) && known(
                pipelines,
                to,
            ),
        },
        link_plan(connectors, pipelines, link) matches Ok(actions) ==> actions.len() > 0,
{
}

/// Where a connector takes part in a link, the connector is told of the
/// pipeline at the other end, under the port of either end, and it is the
/// last to be told: the link is made when it answers.
pub proof fn law_connector_is_told_last(
    connectors: Instances,
    pipelines: Instances,
    link: ConnectStmt,
)
    requires
        link_plan(connectors, pipelines, link) is Ok,
        !(link is PipelineToPipeline),
    ensures
        ({
            let plan = link_plan(connectors, pipelines, link)->Ok_0;
            let (connector_end, pipeline_end) = match link {
                ConnectStmt::ConnectorToPipeline { from, to } => (from, to),
                ConnectStmt::PipelineToConnector { from, to } => (to, from),
                ConnectStmt::PipelineToPipeline { from, to } => (from, to),
            };
            &&& plan.len() >= 2
            &&& plan.last() == (LinkAction::AwaitReply { timeout_secs: LINK_TIMEOUT_SECS })
            &&& plan[plan.len() - 2] == (LinkAction::LinkConnector {
                connector: address(connectors, connector_end),
                port: connector_end.port,
                pipeline_url: port_url(pipelines, pipeline_end),
                pipeline: address(pipelines, pipeline_end),
            })
        }),
{
}

} // verus!
