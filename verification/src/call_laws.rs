//! What callers can rely on, function by function.
use crate::control_laws::resting;
use crate::deployment::Deployment;
use crate::error::DeployError;
use crate::flow::{ConnectStmt, DeployFlow, Query};
use crate::link::{link_plan, LinkAction, PortUrl};
use crate::msg::{
    first_failure, law_first_failure_counts, outcome_of, succeeds, wait_for_responses,
    ConnectorResult, InstanceState, Msg,
};
use crate::registry::{second, Registry};
use crate::startup::{lemma_ends_known, url_path, Stage, Startup, Step};
use crate::startup_laws::driven;
use crate::startup_runs::{keeps_given, law_given_handles_are_kept};
use crate::task::{
    drain_plan, handed_out, informed, pause_plan, received, resume_plan, start_plan, stop_plan,
    valid, Action, Directive, FlowTask, Input, Pending, Process, Work,
};
use crate::topology::{connectors_known, Topology};
use crate::topology_laws::{
    feeds, is_fed, law_connectors_known, law_parts_follow_links, lists_all, lists_group,
};
use std::collections::VecDeque;
use vstd::prelude::*;

verus! {

/// The next step of a deployment is the one it has come to. A connector is
/// spawned as the artefact and the instance that are declared at its index. A
/// pipeline is spawned from the source of the flow, under the path that names
/// its artefact and its instance. Of a link the request is made that comes
/// next in its plan. The control task is one that has had no input, for the
/// instances that run and the links of the flow.
pub proof fn law_next_step(startup: &Startup, step: Step)
    requires
        startup@.valid(),
        call_ensures(Startup::next, (startup,), step),
    ensures
        call_requires(Startup::next, (startup,)),
        match startup@.stage {
            Stage::Connector(i) => step matches Step::SpawnConnector { decl, artefact, instance }
                && {
                let declared = startup@.flow.decl.connectors@[i as int];
                decl == i && artefact == declared.artefact_id && instance == declared.instance_id
            },
            Stage::Pipeline(i) => step matches Step::SpawnPipeline { decl, src, path } && {
                let declared = startup@.flow.decl.pipelines@[i as int];
                &&& decl == i
                &&& src == startup@.src
                &&& path@ == "/pipeline/"@ + declared.artifact_id@ + "/"@ + declared.instance_id@
            },
            Stage::Link(i, k) => {
                let plan = link_plan(
                    startup@.connectors,
                    startup@.pipelines,
                    startup@.flow.decl.links@[i as int],
                );
                plan is Ok && step == Step::Link(plan->Ok_0[k as int])
            },
            Stage::Task => step matches Step::SpawnTask(task) && {
                let links = startup@.flow.decl.links@;
                let t = task@.topology;
                &&& resting(task@)
                &&& valid(task@)
                &&& task@.state == InstanceState::Initialized
                &&& lists_all(startup@.pipelines, t.pipelines)
                &&& lists_group(
                    startup@.connectors,
                    |name: Seq<char>| feeds(links, name) && !is_fed(links, name),
                    t.start_points,
                )
                &&& lists_group(
                    startup@.connectors,
                    |name: Seq<char>| feeds(links, name) && is_fed(links, name),
                    t.mixed_pickles,
                )
                &&& lists_group(
                    startup@.connectors,
                    |name: Seq<char>| !feeds(links, name) && is_fed(links, name),
                    t.end_points,
                )
                &&& lists_group(
                    startup@.connectors,
                    |name: Seq<char>| !feeds(links, name) && !is_fed(links, name),
                    t.unlinked,
                )
            },
            Stage::Announce => step is SendStart,
            Stage::Finished => step is Finish,
        },
{
    if startup@.stage is Task {
        lemma_ends_known(startup@);
        let task = step->SpawnTask_0;
        law_parts_follow_links(
            task@.topology,
            startup@.pipelines,
            startup@.connectors,
            startup@.links(),
        );
    }
}

/// A deployment begins with its flow and its source as they were given, and
/// with nothing spawned.
pub proof fn law_deployment_begins(src: String, flow: DeployFlow, startup: Startup)
    requires
        call_ensures(Deployment::start, (src, flow), startup),
    ensures
        call_requires(Deployment::start, (src, flow)),
        startup@.valid(),
        keeps_given(startup@, src, flow, Seq::empty()),
{
    law_given_handles_are_kept(src, flow, Seq::empty());
    assert(driven(startup@, Seq::empty()) == startup@);
}

/// An instance that was spawned is registered under the name that it was
/// declared with, as what it is, with the handles that were given; no other
/// instance is touched. One that was not spawned ends the deployment, in the
/// words of the runtime.
pub proof fn law_spawned_instance_is_registered(
    startup: &mut Startup,
    reply: Result<(u64, u64), String>,
)
    requires
        old(startup)@.valid(),
        old(startup)@.stage is Connector || old(startup)@.stage is Pipeline,
        call_ensures(Startup::spawned, (startup, reply), ()),
    ensures
        call_requires(Startup::spawned, (startup, reply)),
        final(startup)@.valid(),
        final(startup)@.src == old(startup)@.src,
        final(startup)@.flow == old(startup)@.flow,
        match (old(startup)@.stage, reply) {
            (Stage::Connector(i), Ok(instance)) => {
                let name = old(startup)@.flow.decl.connectors@[i as int].instance_id@;
                &&& final(startup)@.connectors == old(startup)@.connectors.insert(name, instance)
                &&& final(startup)@.pipelines == old(startup)@.pipelines
            },
            (Stage::Pipeline(i), Ok(instance)) => {
                let name = old(startup)@.flow.decl.pipelines@[i as int].instance_id@;
                &&& final(startup)@.connectors == old(startup)@.connectors
                &&& final(startup)@.pipelines == old(startup)@.pipelines.insert(name, instance)
            },
            (_, Ok(_)) => true,
            (_, Err(reason)) => {
                &&& final(startup)@.connectors == old(startup)@.connectors
                &&& final(startup)@.pipelines == old(startup)@.pipelines
                &&& final(startup)@.stage == Stage::Finished
                &&& final(startup)@.failure == Some(DeployError::Runtime(reason))
            },
        },
{
}

/// A step that spawns nothing leaves the instances as they are. One that fails
/// ends the deployment; one that goes well lets it go on.
pub proof fn law_step_leaves_instances(startup: &mut Startup, reply: Result<(), String>)
    requires
        old(startup)@.valid(),
        old(startup)@.stage is Link || old(startup)@.stage is Task || old(startup)@.stage
            is Announce,
        call_ensures(Startup::done, (startup, reply), ()),
    ensures
        call_requires(Startup::done, (startup, reply)),
        final(startup)@.valid(),
        final(startup)@.src == old(startup)@.src,
        final(startup)@.flow == old(startup)@.flow,
        final(startup)@.connectors == old(startup)@.connectors,
        final(startup)@.pipelines == old(startup)@.pipelines,
        reply matches Err(reason) ==> {
            &&& final(startup)@.stage == Stage::Finished
            &&& final(startup)@.failure == Some(
                match old(startup)@.stage {
                    Stage::Link(_, k) => match old(startup)@.plan[k as int] {
                        LinkAction::ConnectOutput { .. } => DeployError::PipelineSend(reason),
                        LinkAction::LinkConnector { .. } => DeployError::ConnectorSend(reason),
                        _ => DeployError::Runtime(reason),
                    },
                    _ => DeployError::Runtime(reason),
                },
            )
        },
        reply is Ok ==> match old(startup)@.stage {
            Stage::Link(i, k) => k + 1 < old(startup)@.plan.len() ==> {
                &&& final(startup)@.stage == Stage::Link(i, (k + 1) as usize)
                &&& final(startup)@.plan == old(startup)@.plan
            },
            Stage::Task => final(startup)@.stage == Stage::Announce,
            Stage::Announce => final(startup)@.stage == Stage::Finished
                && final(startup)@.failure is None,
            _ => true,
        },
{
}

/// A deployment gives back its links where it did not fail, and its failure
/// where it did.
pub proof fn law_deployment_result(startup: Startup, result: Result<Deployment, DeployError>)
    requires
        startup@.stage == Stage::Finished,
        call_ensures(Startup::finish, (startup,), result),
    ensures
        call_requires(Startup::finish, (startup,)),
        match startup@.failure {
            None => result matches Ok(deployment) && deployment.links@ == startup@.flow.decl.links@,
            Some(error) => result == Err::<Deployment, DeployError>(error),
        },
{
}

/// How far a deployment has come can be asked at any time.
pub proof fn law_stage_is_told(startup: &Startup, stage: Stage)
    requires
        call_ensures(Startup::stage, (startup,), stage),
    ensures
        call_requires(Startup::stage, (startup,)),
        stage == startup@.stage,
{
}

/// Links can be laid out for any instances, and what comes back is the plan.
pub proof fn law_link_is_laid_out(
    connectors: &Registry,
    pipelines: &Registry,
    link: &ConnectStmt,
    plan: Result<Vec<LinkAction>, DeployError>,
)
    requires
        call_ensures(Deployment::link, (connectors, pipelines, link), plan),
    ensures
        call_requires(Deployment::link, (connectors, pipelines, link)),
        link_plan(connectors@, pipelines@, *link) == match plan {
            Ok(actions) => Ok::<Seq<LinkAction>, DeployError>(actions@),
            Err(error) => Err::<Seq<LinkAction>, DeployError>(error),
        },
{
}

/// A control task can be made wherever the connectors that the links lead to
/// and from run.
pub proof fn law_control_task_can_be_made(
    pipelines: &Registry,
    connectors: &Registry,
    links: &Vec<ConnectStmt>,
)
    requires
        forall|name: Seq<char>|
            feeds(links@, name) || is_fed(links@, name) ==> #[trigger] connectors@.contains_key(
                name,
            ),
    ensures
        call_requires(Deployment::spawn_task, (pipelines, connectors, links)),
        call_requires(Topology::new, (pipelines, connectors, links)),
        connectors_known(connectors@, links@),
{
    law_connectors_known(connectors@, links@);
}

/// The parts of a flow follow its links.
pub proof fn law_topology_is_made(
    pipelines: &Registry,
    connectors: &Registry,
    links: &Vec<ConnectStmt>,
    t: Topology,
)
    requires
        connectors_known(connectors@, links@),
        call_ensures(Topology::new, (pipelines, connectors, links), t),
    ensures
        lists_all(pipelines@, t.pipelines@),
        lists_group(
            connectors@,
            |name: Seq<char>| feeds(links@, name) && !is_fed(links@, name),
            t.start_points@,
        ),
        lists_group(
            connectors@,
            |name: Seq<char>| feeds(links@, name) && is_fed(links@, name),
            t.mixed_pickles@,
        ),
        lists_group(
            connectors@,
            |name: Seq<char>| !feeds(links@, name) && is_fed(links@, name),
            t.end_points@,
        ),
        lists_group(
            connectors@,
            |name: Seq<char>| !feeds(links@, name) && !is_fed(links@, name),
            t.unlinked@,
        ),
{
    law_parts_follow_links(t@, pipelines@, connectors@, links@);
}

/// The requests that a topology lays out are those of the flow.
pub proof fn law_requests_are_laid_out(t: &Topology, plan: VecDeque<Action>)
    ensures
        call_ensures(Topology::start_actions, (t,), plan) ==> plan@ == start_plan(t@),
        call_ensures(Topology::pause_actions, (t,), plan) ==> plan@ == pause_plan(t@),
        call_ensures(Topology::resume_actions, (t,), plan) ==> plan@ == resume_plan(t@),
        call_ensures(Topology::drain_actions, (t,), plan) ==> plan@ == drain_plan(t@),
        call_ensures(Topology::stop_actions, (t,), plan) ==> plan@ == stop_plan(t@),
{
}

/// A control task that is idle takes any input, and what it then does is what
/// the input calls for.
pub proof fn law_input_is_taken(task: &mut FlowTask, input: Input)
    requires
        valid(old(task)@),
        old(task)@.work == Work::Idle,
        call_ensures(FlowTask::receive, (task, input), ()),
    ensures
        call_requires(FlowTask::receive, (task, input)),
        valid(final(task)@),
        final(task)@ == received(old(task)@, input),
{
}

/// A control task asks for the first request that is still to be handed out.
/// With none, it asks for an input, or for nothing once it has ended.
pub proof fn law_directive(task: &mut FlowTask, directive: Directive)
    requires
        valid(old(task)@),
        old(task)@.pending == Pending::Nothing,
        call_ensures(FlowTask::next, (task,), directive),
    ensures
        call_requires(FlowTask::next, (task,)),
        valid(final(task)@),
        if old(task)@.queue.len() > 0 {
            &&& directive == Directive::Perform(old(task)@.queue[0])
            &&& final(task)@ == handed_out(old(task)@)
        } else {
            &&& directive == if old(task)@.work == Work::Ended {
                Directive::Finish
            } else {
                Directive::Receive
            }
            &&& final(task)@ == old(task)@
        },
{
}

/// A control task takes word of the request that is open, as long as its count
/// of connectors that are to answer can grow.
pub proof fn law_outcome_is_taken(task: &mut FlowTask, outcome: Result<(), DeployError>)
    requires
        valid(old(task)@),
        old(task)@.pending is Part || old(task)@.pending is Other,
        old(task)@.drains.expected < usize::MAX,
        old(task)@.stops.expected < usize::MAX,
        call_ensures(FlowTask::inform, (task, outcome), ()),
    ensures
        call_requires(FlowTask::inform, (task, outcome)),
        valid(final(task)@),
        final(task)@ == informed(old(task)@, outcome),
{
}

/// Connectors that were awaited have started where each of them says so.
/// Otherwise the first response that says otherwise, or that did not arrive,
/// counts as the outcome.
pub proof fn law_responses_are_taken(
    task: &mut FlowTask,
    responses: Vec<Result<ConnectorResult, String>>,
)
    requires
        valid(old(task)@),
        old(task)@.pending == Pending::Started(responses@.len() as usize),
        call_ensures(FlowTask::inform_started, (task, responses), ()),
    ensures
        call_requires(FlowTask::inform_started, (task, responses)),
        valid(final(task)@),
        (forall|i: int| 0 <= i < responses@.len() ==> succeeds(#[trigger] responses@[i]))
            ==> final(task)@ == informed(old(task)@, Ok(())),
        forall|i: int, error: DeployError| #[trigger]
            first_failure(responses@, i, error) ==> final(task)@ == informed(
                old(task)@,
                Err(error),
            ),
{
    lemma_one_outcome(responses@);
}

proof fn lemma_one_outcome(responses: Seq<Result<ConnectorResult, String>>)
    ensures
        (forall|i: int| 0 <= i < responses.len() ==> succeeds(#[trigger] responses[i]))
            ==> outcome_of(responses) == Ok::<nat, DeployError>(responses.len()),
        forall|i: int, error: DeployError| #[trigger]
            first_failure(responses, i, error) ==> outcome_of(responses) == Err::<
                nat,
                DeployError,
            >(error),
{
    law_first_failure_counts(responses);
    if let Err(found) = outcome_of(responses) {
        let k = choose|k: int| first_failure(responses, k, found);
        assert(!succeeds(responses[k]));
        assert forall|i: int, error: DeployError| #[trigger]
            first_failure(responses, i, error) implies error == found by {
            assert(!succeeds(responses[i]));
            assert(i == k);
        }
    } else {
        assert forall|i: int, error: DeployError| !(#[trigger] first_failure(
            responses,
            i,
            error,
        )) by {
            if first_failure(responses, i, error) {
                assert(succeeds(responses[i]));
            }
        }
    }
}

/// The responses to a round of requests are a success, one for each of them,
/// just where each of them is one; otherwise the first failure counts.
pub proof fn law_responses_are_joined(
    responses: Vec<Result<ConnectorResult, String>>,
    outcome: Result<Vec<()>, DeployError>,
)
    requires
        call_ensures(wait_for_responses, (responses,), outcome),
    ensures
        call_requires(wait_for_responses, (responses,)),
        (forall|i: int| 0 <= i < responses@.len() ==> succeeds(#[trigger] responses@[i]))
            ==> (outcome matches Ok(done) && done@.len() == responses@.len()),
        forall|i: int, error: DeployError| #[trigger]
            first_failure(responses@, i, error) ==> outcome == Err::<Vec<()>, DeployError>(error),
{
    lemma_one_outcome(responses@);
}

/// A control task that has ended gives back what it ended with.
pub proof fn law_task_result(task: FlowTask, result: Result<(), DeployError>)
    requires
        task@.work == Work::Ended,
        call_ensures(FlowTask::finish, (task,), result),
    ensures
        call_requires(FlowTask::finish, (task,)),
        result == task@.result,
{
}

/// What a control task tells of itself is so.
pub proof fn law_task_tells(
    task: &FlowTask,
    state: InstanceState,
    drains: usize,
    stops: usize,
    topology: &Topology,
)
    requires
        call_ensures(FlowTask::state, (task,), state),
        call_ensures(FlowTask::expected, (task, Process::Drain), drains),
        call_ensures(FlowTask::expected, (task, Process::Stop), stops),
        call_ensures(FlowTask::topology, (task,), topology),
    ensures
        state == task@.state,
        drains == task@.drains.expected,
        stops == task@.stops.expected,
        topology@ == task@.topology,
{
}

/// What a control task says it ignores is what does not suit its state.
pub proof fn law_task_tells_what_it_ignores(task: &FlowTask, msg: &Msg, ignores: bool)
    requires
        call_ensures(FlowTask::ignores, (task, msg), ignores),
    ensures
        call_requires(FlowTask::ignores, (task, msg)),
        ignores <==> match *msg {
            Msg::Start => !(task@.state is Initialized),
            Msg::Pause => !(task@.state is Running),
            Msg::Resume => !(task@.state is Paused),
            Msg::Drain(_) => task@.state is Draining,
            Msg::Stop(_) | Msg::Report(_) => false,
        },
{
}

/// The text of an error tells what went wrong and holds what it is about in
/// full.
pub proof fn law_error_is_told(error: &DeployError, text: String)
    requires
        call_ensures(DeployError::message, (error,), text),
    ensures
        call_requires(DeployError::message, (error,)),
        text@ == match *error {
            DeployError::ConnectorNotFound(artefact) => "FIXME: connector "@ + artefact@
                + " not found"@,
            DeployError::PipelineNotFound(artefact) => "FIXME: pipeline "@ + artefact@
                + " not found"@,
            DeployError::ConnectorSend(reason) => "Could not send to connector: "@ + reason@,
            DeployError::PipelineSend(reason) => "Could not send to pipeline: "@ + reason@,
            DeployError::Runtime(reason) => reason@,
        },
{
}

/// The error of a failed request goes by who was asked.
pub proof fn law_request_fails(action: &LinkAction, reason: String, error: DeployError)
    requires
        call_ensures(LinkAction::fail, (action, reason), error),
    ensures
        call_requires(LinkAction::fail, (action, reason)),
        error == match *action {
            LinkAction::ConnectOutput { .. } => DeployError::PipelineSend(reason),
            LinkAction::LinkConnector { .. } => DeployError::ConnectorSend(reason),
            LinkAction::ResolveTarget { .. } | LinkAction::AwaitReply { .. } => {
                DeployError::Runtime(reason)
            },
        },
{
}

/// The path of a pipeline names its artefact and then its instance.
pub proof fn law_path_of_pipeline(decl: &Query, path: String)
    requires
        call_ensures(url_path, (decl,), path),
    ensures
        call_requires(url_path, (decl,)),
        path@ == "/pipeline/"@ + decl.artifact_id@ + "/"@ + decl.instance_id@,
{
}

/// A registry begins empty, and holds under a name what was registered there
/// last; no other name is touched by that.
pub proof fn law_registry(
    registry: &mut Registry,
    name: String,
    instance: (u64, u64),
    new: Registry,
)
    requires
        call_ensures(Registry::empty, (), new),
        call_ensures(Registry::register, (registry, name, instance), ()),
    ensures
        new@.dom() =~= Set::<Seq<char>>::empty(),
        final(registry)@.contains_key(name@),
        final(registry)@[name@] == instance,
        forall|other: Seq<char>|
            other != name@ ==> {
                &&& #[trigger] final(registry)@.contains_key(other) <==> old(
                    registry,
                )@.contains_key(other)
                &&& final(registry)@[other] == old(registry)@[other]
            },
{
}

/// A copy of a request is the same request.
pub proof fn law_request_is_copied(
    action: &LinkAction,
    copy: LinkAction,
    url: &PortUrl,
    url_copy: PortUrl,
)
    requires
        call_ensures(<LinkAction as Clone>::clone, (action,), copy),
        call_ensures(<PortUrl as Clone>::clone, (url,), url_copy),
    ensures
        copy == *action,
        url_copy == *url,
{
}

/// The second half of a pair is its second half.
pub proof fn law_second<T1, T2>(t: &(T1, T2), half: &T2)
    requires
        call_ensures(second::<T1, T2>, (t,), half),
    ensures
        call_requires(second::<T1, T2>, (t,)),
        *half == t.1,
{
}

} // verus!
