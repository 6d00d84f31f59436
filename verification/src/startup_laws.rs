//! What bringing a flow up promises over several steps.
use crate::error::DeployError;
use crate::flow::{ConnectStmt, DeployEndpoint, DeployFlow};
use crate::link::{law_link_plans_exactly_the_known, link_plan, LinkAction};
use crate::startup::{
    connector_names, lemma_name_added, pipeline_names, untouched, Stage, StartupView,
};
use vstd::prelude::*;

verus! {

/// The deployment after its next step went well. Where an instance was to be
/// spawned, it got the handles `instance`.
pub open spec fn succeeded(m: StartupView, instance: (u64, u64)) -> StartupView {
    if m.stage is Connector || m.stage is Pipeline {
        m.spawned(Ok(instance))
    } else {
        m.done(Ok(()))
    }
}

/// The deployment after its next step failed.
pub open spec fn stumbled(m: StartupView, reason: String) -> StartupView {
    if m.stage is Connector || m.stage is Pipeline {
        m.spawned(Err(reason))
    } else {
        m.done(Err(reason))
    }
}

/// The deployment after its next steps went well.
pub open spec fn driven(m: StartupView, instances: Seq<(u64, u64)>) -> StartupView
    decreases instances.len(),
{
    if instances.len() == 0 {
        m
    } else {
        driven(succeeded(m, instances[0]), instances.skip(1))
    }
}

/// A connector is declared under the name that `end` gives.
pub open spec fn connector_declared(flow: DeployFlow, end: DeployEndpoint) -> bool {
    connector_names(flow.decl.connectors@).contains(end.instance@)
}

/// A pipeline is declared under the name that `end` gives.
pub open spec fn pipeline_declared(flow: DeployFlow, end: DeployEndpoint) -> bool {
    pipeline_names(flow.decl.pipelines@).contains(end.instance@)
}

/// Both ends of `link` are declared.
pub open spec fn ends_declared(flow: DeployFlow, link: ConnectStmt) -> bool {
    match link {
        ConnectStmt::ConnectorToPipeline { from, to } => connector_declared(flow, from)
            && pipeline_declared(flow, to),
        ConnectStmt::PipelineToConnector { from, to } => pipeline_declared(flow, from)
            && connector_declared(flow, to),
        ConnectStmt::PipelineToPipeline { from, to } => pipeline_declared(flow, from)
            && pipeline_declared(flow, to),
    }
}

/// Both ends of each of the first `k` links of `flow` are declared.
pub open spec fn declared_before(flow: DeployFlow, k: int) -> bool {
    forall|i: int| 0 <= i < k ==> ends_declared(flow, #[trigger] flow.decl.links@[i])
}

/// Both ends of every link of `flow` are declared.
pub open spec fn all_ends_declared(flow: DeployFlow) -> bool {
    declared_before(flow, flow.decl.links@.len() as int)
}

/// What a deployment fails with that comes to `link`, not all of whose ends
/// are declared. Where the second of two pipelines is not, the error names
/// the artefact of the first.
pub open spec fn missing_end(flow: DeployFlow, link: ConnectStmt) -> DeployError {
    match link {
        ConnectStmt::ConnectorToPipeline { from, to } => if !connector_declared(flow, from) {
            DeployError::ConnectorNotFound(from.artefact)
        } else {
            DeployError::PipelineNotFound(to.artefact)
        },
        ConnectStmt::PipelineToConnector { from, to } => if !pipeline_declared(flow, from) {
            DeployError::PipelineNotFound(from.artefact)
        } else {
            DeployError::ConnectorNotFound(to.artefact)
        },
        ConnectStmt::PipelineToPipeline { from, .. } => DeployError::PipelineNotFound(
            from.artefact,
        ),
    }
}

/// How many requests make `link`.
pub open spec fn requests(link: ConnectStmt) -> int {
    match link {
        ConnectStmt::ConnectorToPipeline { .. } => 2,
        ConnectStmt::PipelineToConnector { .. } => 4,
        ConnectStmt::PipelineToPipeline { .. } => 1,
    }
}

/// How many requests make all of `links`.
pub open spec fn all_requests(links: Seq<ConnectStmt>) -> int
    decreases links.len(),
{
    if links.len() == 0 {
        0
    } else {
        requests(links[0]) + all_requests(links.skip(1))
    }
}

/// How many steps it takes to spawn the instances of `flow` and to make the
/// first `k` of its links.
pub open spec fn steps_before_link(flow: DeployFlow, k: int) -> int {
    flow.decl.connectors@.len() + flow.decl.pipelines@.len() + all_requests(
        flow.decl.links@.take(k),
    )
}

/// The deployment has not come to the link at index `k`.
pub open spec fn before_link(m: StartupView, k: int) -> bool {
    match m.stage {
        Stage::Connector(_) | Stage::Pipeline(_) => true,
        Stage::Link(i, _) => i < k,
        _ => false,
    }
}

/// How many steps are left until the deployment comes to the link at index `k`.
pub open spec fn steps_left(m: StartupView, k: int) -> int {
    let connectors = m.connector_decls().len();
    let pipelines = m.pipeline_decls().len();
    match m.stage {
        Stage::Connector(i) => connectors - i + pipelines + all_requests(m.links().take(k)),
        Stage::Pipeline(i) => pipelines - i + all_requests(m.links().take(k)),
        Stage::Link(i, j) => requests(m.links()[i as int]) - j + all_requests(
            m.links().subrange(i + 1, k),
        ),
        _ => 0,
    }
}

/// The deployment has just come to the link at index `k`, or, past the last
/// link, to the control task: all instances are spawned, and the links before
/// index `k` are made.
pub open spec fn arrived(m: StartupView, k: int) -> bool {
    &&& m.all_spawned()
    &&& m.ends_known(k)
    &&& if k < m.links().len() {
        match m.link_plan(k) {
            Ok(plan) => m.stage == Stage::Link(k as usize, 0) && m.plan == plan && m.failure
                is None,
            Err(error) => m.stage == Stage::Finished && m.failure == Some(error),
        }
    } else {
        m.stage == Stage::Task && m.failure is None
    }
}

/// A step that fails ends the deployment with the error of that step, and
/// nothing is undone.
pub proof fn law_failure_ends_deployment(m: StartupView, reason: String)
    requires
        m.valid(),
        m.stage != Stage::Finished,
    ensures
        stumbled(m, reason).stage == Stage::Finished,
        stumbled(m, reason).failure == Some(
            match m.stage {
                Stage::Link(_, k) => m.plan[k as int].failure(reason),
                _ => DeployError::Runtime(reason),
            },
        ),
        stumbled(m, reason).connectors == m.connectors,
        stumbled(m, reason).pipelines == m.pipelines,
        stumbled(m, reason).flow == m.flow,
        stumbled(m, reason).src == m.src,
        stumbled(m, reason).valid(),
{
}

/// A deployment that is up has spawned every connector and every pipeline
/// that its flow declares and nothing else, and every end of every link is
/// one of them.
pub proof fn law_up_is_complete(m: StartupView)
    requires
        m.valid(),
        m.stage == Stage::Finished,
        m.failure is None,
    ensures
        m.all_spawned(),
        all_ends_declared(m.flow),
{
    assert forall|i: int| 0 <= i < m.flow.decl.links@.len() implies ends_declared(
        m.flow,
        #[trigger] m.flow.decl.links@[i],
    ) by {
        let link = m.links()[i];
        law_link_plans_exactly_the_known(m.connectors, m.pipelines, link);
        lemma_known_is_declared(m, link);
    }
}

pub(crate) proof fn lemma_known_is_declared(m: StartupView, link: ConnectStmt)
    requires
        m.all_spawned(),
    ensures
        link_plan(m.connectors, m.pipelines, link) is Ok <==> ends_declared(m.flow, link),
        !ends_declared(m.flow, link) ==> link_plan(m.connectors, m.pipelines, link) == Err::<
            Seq<LinkAction>,
            DeployError,
        >(missing_end(m.flow, link)),
{
    law_link_plans_exactly_the_known(m.connectors, m.pipelines, link);
}

pub(crate) proof fn lemma_all_requests(links: Seq<ConnectStmt>)
    ensures
        all_requests(links) >= 0,
        links.len() > 0 ==> all_requests(links) > 0,
    decreases links.len(),
{
    if links.len() > 0 {
        lemma_all_requests(links.skip(1));
    }
}

/// Where the deployment stands that has just passed on, `left` steps before
/// the link at index `k`.
spec fn passed_on(m: StartupView, k: int, left: int) -> bool {
    if left > 0 {
        before_link(m, k) && steps_left(m, k) == left
    } else {
        arrived(m, k)
    }
}

proof fn lemma_at_link(m: StartupView, i: int, k: int)
    requires
        0 <= i <= m.links().len(),
        m.links().len() <= usize::MAX,
        m.ends_known(i),
        m.all_spawned(),
        m.failure is None,
    ensures
        m.at_link(i).valid(),
        m.at_link(i).flow == m.flow,
        i <= k <= m.links().len() && declared_before(m.flow, k) ==> passed_on(
            m.at_link(i),
            k,
            all_requests(m.links().subrange(i, k)),
        ),
{
    let next = m.at_link(i);
    if i < m.links().len() {
        let link = m.links()[i];
        assert(link == m.flow.decl.links@[i]);
        lemma_known_is_declared(m, link);
        assert(next.valid());
    }
    if i <= k <= m.links().len() && declared_before(m.flow, k) {
        let ahead = m.links().subrange(i, k);
        lemma_all_requests(ahead);
        if i < k {
            assert(ahead[0] == m.links()[i]);
            assert(ahead.skip(1) =~= m.links().subrange(i + 1, k));
        } else {
            assert(ahead.len() == 0);
            assert(next.ends_known(k));
        }
    }
}

proof fn lemma_at_pipeline(m: StartupView, i: int, k: int)
    requires
        0 <= i <= m.pipeline_decls().len(),
        m.pipeline_decls().len() <= usize::MAX,
        m.links().len() <= usize::MAX,
        m.connectors_spawned(m.connector_decls().len() as int),
        m.pipelines_spawned(i),
        m.failure is None,
    ensures
        m.at_pipeline(i).valid(),
        m.at_pipeline(i).flow == m.flow,
        0 <= k <= m.links().len() && declared_before(m.flow, k) ==> passed_on(
            m.at_pipeline(i),
            k,
            m.pipeline_decls().len() - i + all_requests(m.links().take(k)),
        ),
{
    lemma_all_requests(m.links().take(k));
    if i < m.pipeline_decls().len() {
        assert(m.at_pipeline(i).valid());
    } else {
        lemma_at_link(m, 0, k);
        if 0 <= k <= m.links().len() {
            assert(m.links().subrange(0, k) =~= m.links().take(k));
        }
    }
}

proof fn lemma_at_connector(m: StartupView, i: int, k: int)
    requires
        0 <= i <= m.connector_decls().len(),
        m.connector_decls().len() <= usize::MAX,
        m.pipeline_decls().len() <= usize::MAX,
        m.links().len() <= usize::MAX,
        m.connectors_spawned(i),
        m.pipelines_spawned(0),
        m.failure is None,
    ensures
        m.at_connector(i).valid(),
        m.at_connector(i).flow == m.flow,
        0 <= k <= m.links().len() && declared_before(m.flow, k) ==> passed_on(
            m.at_connector(i),
            k,
            m.connector_decls().len() - i + m.pipeline_decls().len() + all_requests(
                m.links().take(k),
            ),
        ),
{
    lemma_all_requests(m.links().take(k));
    if i < m.connector_decls().len() {
        assert(m.at_connector(i).valid());
    } else {
        lemma_at_pipeline(m, 0, k);
    }
}

proof fn lemma_succeeded(m: StartupView, instance: (u64, u64), k: int)
    requires
        m.valid(),
    ensures
        succeeded(m, instance).valid(),
        succeeded(m, instance).flow == m.flow,
        before_link(m, k) && 0 <= k <= m.links().len() && declared_before(m.flow, k) ==> {
            &&& steps_left(m, k) > 0
            &&& passed_on(succeeded(m, instance), k, steps_left(m, k) - 1)
        },
{
    let next = succeeded(m, instance);
    assert(m.flow.decl.connectors.len() == m.connector_decls().len());
    assert(m.flow.decl.pipelines.len() == m.pipeline_decls().len());
    assert(m.flow.decl.links.len() == m.links().len());
    lemma_all_requests(m.links().take(k));
    match m.stage {
        Stage::Connector(i) => {
            lemma_name_added(
                m.connectors,
                connector_names(m.connector_decls()),
                i as int,
                instance,
            );
            let filled = StartupView {
                connectors: m.connectors.insert(
                    m.connector_decls()[i as int].instance_id@,
                    instance,
                ),
                ..m
            };
            lemma_at_connector(filled, i + 1, k);
        },
        Stage::Pipeline(i) => {
            lemma_name_added(
                m.pipelines,
                pipeline_names(m.pipeline_decls()),
                i as int,
                instance,
            );
            let filled = StartupView {
                pipelines: m.pipelines.insert(
                    m.pipeline_decls()[i as int].instance_id@,
                    instance,
                ),
                ..m
            };
            lemma_at_pipeline(filled, i + 1, k);
        },
        Stage::Link(i, j) => {
            lemma_all_requests(m.links().subrange(i + 1, k));
            if j + 1 < m.plan.len() {
                assert(next.valid());
            } else {
                assert(m.ends_known(i + 1));
                lemma_at_link(m, i + 1, k);
            }
        },
        _ => {
            assert(next.valid());
        },
    }
}

/// A step that goes well keeps what holds of a deployment at all times, and
/// its flow.
pub proof fn law_success_keeps_valid(m: StartupView, instance: (u64, u64))
    requires
        m.valid(),
    ensures
        succeeded(m, instance).valid(),
        succeeded(m, instance).flow == m.flow,
{
    lemma_succeeded(m, instance, 0);
}

proof fn lemma_driven(m: StartupView, instances: Seq<(u64, u64)>, k: int)
    requires
        m.valid(),
        0 <= k <= m.links().len(),
        declared_before(m.flow, k),
        passed_on(m, k, instances.len() as int),
    ensures
        driven(m, instances).valid(),
        driven(m, instances).flow == m.flow,
        arrived(driven(m, instances), k),
    decreases instances.len(),
{
    if instances.len() > 0 {
        lemma_succeeded(m, instances[0], k);
        lemma_driven(succeeded(m, instances[0]), instances.skip(1), k);
    }
}

/// When every step goes well, the instances of a flow are spawned and its
/// links made in their order, as far as the ends of the links are declared.
pub proof fn law_links_are_made_in_order(
    src: String,
    flow: DeployFlow,
    k: int,
    instances: Seq<(u64, u64)>,
)
    requires
        0 <= k <= flow.decl.links@.len(),
        declared_before(flow, k),
        instances.len() == steps_before_link(flow, k),
    ensures
        ({
            let m = driven(untouched(src, flow).at_connector(0), instances);
            m.valid() && m.flow == flow && arrived(m, k)
        }),
{
    let m = untouched(src, flow);
    assert(flow.decl.connectors.len() == m.connector_decls().len());
    assert(flow.decl.pipelines.len() == m.pipeline_decls().len());
    assert(flow.decl.links.len() == m.links().len());
    lemma_at_connector(m, 0, k);
    lemma_driven(m.at_connector(0), instances, k);
}

/// A flow with a link whose ends are not all declared fails when it comes to
/// the first such link, with the error that names the missing end.
pub proof fn law_undeclared_end_is_reported(
    src: String,
    flow: DeployFlow,
    k: int,
    instances: Seq<(u64, u64)>,
)
    requires
        0 <= k < flow.decl.links@.len(),
        declared_before(flow, k),
        !ends_declared(flow, flow.decl.links@[k]),
        instances.len() == steps_before_link(flow, k),
    ensures
        ({
            let m = driven(untouched(src, flow).at_connector(0), instances);
            &&& m.stage == Stage::Finished
            &&& m.failure == Some(missing_end(flow, flow.decl.links@[k]))
        }),
{
    law_links_are_made_in_order(src, flow, k, instances);
    let m = driven(untouched(src, flow).at_connector(0), instances);
    lemma_known_is_declared(m, m.links()[k]);
}

pub(crate) proof fn lemma_driven_splits(m: StartupView, instances: Seq<(u64, u64)>, n: int)
    requires
        0 <= n <= instances.len(),
    ensures
        driven(m, instances) == driven(driven(m, instances.take(n)), instances.skip(n)),
    decreases n,
{
    if n == 0 {
        assert(instances.skip(0) =~= instances);
    } else {
        lemma_driven_splits(succeeded(m, instances[0]), instances.skip(1), n - 1);
        assert(instances.take(n).skip(1) =~= instances.skip(1).take(n - 1));
        assert(instances.skip(1).skip(n - 1) =~= instances.skip(n));
    }
}

/// A flow the ends of all of whose links are declared comes up when every
/// step goes well. It takes one step for each connector and each pipeline,
/// the requests of each link, and two more: to spawn the control task and to
/// tell it to start.
pub proof fn law_flow_comes_up(src: String, flow: DeployFlow, instances: Seq<(u64, u64)>)
    requires
        all_ends_declared(flow),
        instances.len() == steps_before_link(flow, flow.decl.links@.len() as int) + 2,
    ensures
        ({
            let up = driven(untouched(src, flow).at_connector(0), instances);
            &&& up.stage == Stage::Finished
            &&& up.failure is None
            &&& up.flow == flow
            &&& up.all_spawned()
        }),
{
    let links = flow.decl.links@.len() as int;
    let n = steps_before_link(flow, links);
    lemma_all_requests(flow.decl.links@.take(links));
    law_links_are_made_in_order(src, flow, links, instances.take(n));
    let begun = untouched(src, flow).at_connector(0);
    lemma_driven_splits(begun, instances, n);
    let m = driven(begun, instances.take(n));
    reveal_with_fuel(driven, 3);
    law_success_keeps_valid(m, instances[n]);
    law_success_keeps_valid(succeeded(m, instances[n]), instances[n + 1]);
}

} // verus!
