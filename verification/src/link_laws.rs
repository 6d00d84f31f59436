//! What linking two instances does to each of them.
use crate::error::DeployError;
use crate::flow::{ConnectStmt, DeployEndpoint};
use crate::link::{link_plan, LinkAction, OutputTarget, PortUrl};
use crate::registry::Instances;
use vstd::prelude::*;

verus! {

/// The sorts of requests that links are made of.
pub enum Sort {
    ResolveTarget,
    ConnectOutput,
    LinkConnector,
    AwaitReply,
}

/// The sort of `action`.
pub open spec fn sort_of(action: LinkAction) -> Sort {
    match action {
        LinkAction::ResolveTarget { .. } => Sort::ResolveTarget,
        LinkAction::ConnectOutput { .. } => Sort::ConnectOutput,
        LinkAction::LinkConnector { .. } => Sort::LinkConnector,
        LinkAction::AwaitReply { .. } => Sort::AwaitReply,
    }
}

/// Of `plan`, just the request at index `k` is one of this sort.
pub open spec fn only_one(plan: Seq<LinkAction>, k: int, sort: Sort) -> bool {
    &&& 0 <= k < plan.len()
    &&& forall|j: int| 0 <= j < plan.len() ==> (sort_of(#[trigger] plan[j]) == sort <==> j == k)
}

/// None of `plan` is of this sort.
pub open spec fn not_one(plan: Seq<LinkAction>, sort: Sort) -> bool {
    forall|j: int| 0 <= j < plan.len() ==> sort_of(#[trigger] plan[j]) != sort
}

/// `url` is the URL with the handle that comes first in `instance`, at the
/// port of `end`.
pub open spec fn names_port(url: PortUrl, instance: (u64, u64), end: DeployEndpoint) -> bool {
    url.url == instance.0 && url.port == end.port
}

/// A link that a pipeline sends into has both ends running: `source` is the
/// pipeline it leaves and `sink` the instance it leads to, which is the
/// target `target`.
pub open spec fn leaves_pipeline(
    connectors: Instances,
    pipelines: Instances,
    link: ConnectStmt,
    source: (u64, u64),
    sink: (u64, u64),
    target: OutputTarget,
) -> bool {
    match link {
        ConnectStmt::ConnectorToPipeline { .. } => false,
        ConnectStmt::PipelineToConnector { from, to } => {
            &&& pipelines.contains_key(from.instance@)
            &&& source == pipelines[from.instance@]
            &&& connectors.contains_key(to.instance@)
            &&& sink == connectors[to.instance@]
            &&& target == OutputTarget::Connector(sink.1)
        },
        ConnectStmt::PipelineToPipeline { from, to } => {
            &&& pipelines.contains_key(from.instance@)
            &&& source == pipelines[from.instance@]
            &&& pipelines.contains_key(to.instance@)
            &&& sink == pipelines[to.instance@]
            &&& target == OutputTarget::Pipeline(sink.1)
        },
    }
}

/// The end that `link` comes from.
pub open spec fn near_end(link: ConnectStmt) -> DeployEndpoint {
    match link {
        ConnectStmt::ConnectorToPipeline { from, .. } => from,
        ConnectStmt::PipelineToConnector { from, .. } => from,
        ConnectStmt::PipelineToPipeline { from, .. } => from,
    }
}

/// The end that `link` leads to.
pub open spec fn far_end(link: ConnectStmt) -> DeployEndpoint {
    match link {
        ConnectStmt::ConnectorToPipeline { to, .. } => to,
        ConnectStmt::PipelineToConnector { to, .. } => to,
        ConnectStmt::PipelineToPipeline { to, .. } => to,
    }
}

/// Where a link leaves a pipeline, exactly one request is made of a pipeline.
/// It is made of the pipeline the link leaves, for the port the link leaves,
/// and its output is the instance the link leads to, at the port the link
/// leads to. That holds whatever artefacts the ends are made from, also where
/// they are made from the same.
pub proof fn law_pipeline_sends_to_far_end(
    connectors: Instances,
    pipelines: Instances,
    link: ConnectStmt,
    source: (u64, u64),
    sink: (u64, u64),
    target: OutputTarget,
)
    requires
        leaves_pipeline(connectors, pipelines, link, source, sink, target),
    ensures
        link_plan(connectors, pipelines, link) matches Ok(plan) && exists|k: int|
            {
                &&& #[trigger] only_one(plan, k, Sort::ConnectOutput)
                &&& plan[k]->ConnectOutput_pipeline == source.1
                &&& plan[k]->ConnectOutput_port == near_end(link).port
                &&& names_port(plan[k]->output_url, sink, far_end(link))
                &&& plan[k]->target == target
            },
{
    let plan = link_plan(connectors, pipelines, link)->Ok_0;
    let k = if link is PipelineToConnector {
        1int
    } else {
        0int
    };
    assert(only_one(plan, k, Sort::ConnectOutput));
}

/// The connector that takes part in `link` is `connector`, at the end
/// `connector_end`, and the pipeline at the other end, `pipeline_end`, is
/// `pipeline`. Both run.
pub open spec fn joins_connector(
    connectors: Instances,
    pipelines: Instances,
    link: ConnectStmt,
    connector: (u64, u64),
    connector_end: DeployEndpoint,
    pipeline: (u64, u64),
    pipeline_end: DeployEndpoint,
) -> bool {
    &&& link == (ConnectStmt::ConnectorToPipeline { from: connector_end, to: pipeline_end })
        || link == (ConnectStmt::PipelineToConnector { from: pipeline_end, to: connector_end })
    &&& connectors.contains_key(connector_end.instance@)
    &&& connector == connectors[connector_end.instance@]
    &&& pipelines.contains_key(pipeline_end.instance@)
    &&& pipeline == pipelines[pipeline_end.instance@]
}

/// Where a connector takes part in a link, whichever end it is at, exactly one
/// request to link is made of a connector: of that connector, for its own
/// port, and with the pipeline at the other end at that end's port. Right
/// after it comes the only wait for an answer, of two seconds at most, and
/// nothing comes after that.
pub proof fn law_connector_learns_of_pipeline(
    connectors: Instances,
    pipelines: Instances,
    link: ConnectStmt,
    connector: (u64, u64),
    connector_end: DeployEndpoint,
    pipeline: (u64, u64),
    pipeline_end: DeployEndpoint,
)
    requires
        joins_connector(
            connectors,
            pipelines,
            link,
            connector,
            connector_end,
            pipeline,
            pipeline_end,
        ),
    ensures
        link_plan(connectors, pipelines, link) matches Ok(plan) && exists|k: int|
            {
                &&& #[trigger] only_one(plan, k, Sort::LinkConnector)
                &&& plan[k]->LinkConnector_connector == connector.1
                &&& plan[k]->LinkConnector_port == connector_end.port
                &&& names_port(plan[k]->pipeline_url, pipeline, pipeline_end)
                &&& plan[k]->LinkConnector_pipeline == pipeline.1
                &&& only_one(plan, k + 1, Sort::AwaitReply)
                &&& plan[k + 1]->timeout_secs == 2
                &&& plan.len() == k + 2
            },
{
    let plan = link_plan(connectors, pipelines, link)->Ok_0;
    let k = if link is PipelineToConnector {
        2int
    } else {
        0int
    };
    assert(only_one(plan, k, Sort::LinkConnector));
    assert(only_one(plan, k + 1, Sort::AwaitReply));
}

/// What a link takes no part in is left alone. A link that comes from a
/// connector asks nothing of a pipeline. A link between pipelines asks nothing
/// of a connector and waits for nobody. Only where a link leads to a connector
/// is it made an output target, and that comes first, before the pipeline is
/// told of it and before the connector is told of the pipeline.
pub proof fn law_link_leaves_others_alone(
    connectors: Instances,
    pipelines: Instances,
    link: ConnectStmt,
)
    requires
        link_plan(connectors, pipelines, link) is Ok,
    ensures
        ({
            let plan = link_plan(connectors, pipelines, link)->Ok_0;
            match link {
                ConnectStmt::ConnectorToPipeline { .. } => {
                    &&& not_one(plan, Sort::ConnectOutput)
                    &&& not_one(plan, Sort::ResolveTarget)
                },
                ConnectStmt::PipelineToConnector { to, .. } => {
                    &&& only_one(plan, 0, Sort::ResolveTarget)
                    &&& plan[0]->ResolveTarget_connector == connectors[to.instance@].1
                    &&& only_one(plan, 1, Sort::ConnectOutput)
                    &&& only_one(plan, 2, Sort::LinkConnector)
                },
                ConnectStmt::PipelineToPipeline { .. } => {
                    &&& not_one(plan, Sort::ResolveTarget)
                    &&& not_one(plan, Sort::LinkConnector)
                    &&& not_one(plan, Sort::AwaitReply)
                },
            }
        }),
{
}

/// A link fails just where an instance is missing at one of its ends, and the
/// end it comes from is looked for first. The error says whether a connector
/// or a pipeline is missing, and names the artefact of the missing end; only
/// where the pipeline is missing that a link between pipelines leads to, it
/// names the artefact of the end the link comes from.
pub proof fn law_missing_end_is_named(
    connectors: Instances,
    pipelines: Instances,
    link: ConnectStmt,
)
    ensures
        ({
            let plan = link_plan(connectors, pipelines, link);
            let near = near_end(link);
            let far = far_end(link);
            let near_runs = if link is ConnectorToPipeline {
                connectors.contains_key(near.instance@)
            } else {
                pipelines.contains_key(near.instance@)
            };
            let far_runs = if link is PipelineToConnector {
                connectors.contains_key(far.instance@)
            } else {
                pipelines.contains_key(far.instance@)
            };
            &&& plan is Ok <==> near_runs && far_runs
            &&& !near_runs ==> plan->Err_0 == if link is ConnectorToPipeline {
                DeployError::ConnectorNotFound(near.artefact)
            } else {
                DeployError::PipelineNotFound(near.artefact)
            }
            &&& near_runs && !far_runs ==> plan->Err_0 == match link {
                ConnectStmt::ConnectorToPipeline { .. } => DeployError::PipelineNotFound(
                    far.artefact,
                ),
                ConnectStmt::PipelineToConnector { .. } => DeployError::ConnectorNotFound(
                    far.artefact,
                ),
                ConnectStmt::PipelineToPipeline { .. } => DeployError::PipelineNotFound(
                    near.artefact,
                ),
            }
        }),
{
}

/// A request that fails while a link is made is reported with the reason
/// given, and the text says who could not be reached: the pipeline where a
/// pipeline was to be told, the connector where a connector was. A connector
/// that is no output target, does not answer in time or answers with an error
/// is reported in the words of the reason alone.
pub proof fn law_failed_request_is_reported(action: LinkAction, reason: String)
    ensures
        match action {
            LinkAction::ConnectOutput { .. } => action.failure(reason)
                == DeployError::PipelineSend(reason) && action.failure(reason).text()
                == "Could not send to pipeline: "@ + reason@,
            LinkAction::LinkConnector { .. } => action.failure(reason)
                == DeployError::ConnectorSend(reason) && action.failure(reason).text()
                == "Could not send to connector: "@ + reason@,
            LinkAction::ResolveTarget { .. } | LinkAction::AwaitReply { .. } => action.failure(
                reason,
            ) == DeployError::Runtime(reason) && action.failure(reason).text() == reason@,
        },
{
}

/// The text of an error for a missing instance says what is missing and
/// holds the artefact in full, between the same words for every artefact.
pub proof fn law_missing_instance_text(artefact: String)
    ensures
        DeployError::ConnectorNotFound(artefact).text() == "FIXME: connector "@ + artefact@
            + " not found"@,
        DeployError::PipelineNotFound(artefact).text() == "FIXME: pipeline "@ + artefact@
            + " not found"@,
{
}

} // verus!
