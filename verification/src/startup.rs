//! Bringing a flow up.
//!
//! Every connector of the flow is spawned, then every pipeline, then the
//! links are made one after the other. At last the control task is spawned
//! and told to start the flow. The runtime does each step and reports how it
//! went; the first step that fails ends the deployment with its error.
use crate::deployment::Deployment;
use crate::error::DeployError;
use crate::flow::{ConnectStmt, ConnectorDecl, DeployFlow, Query};
use crate::ids::{ConnectorId, PipelineId};
use crate::link::{law_link_plans_exactly_the_known, link_plan, LinkAction};
use crate::registry::{Instances, Registry};
use crate::task::{fresh, valid, FlowTask};
use crate::topology::{connector_on, connectors_known, Side};
use vstd::prelude::*;

verus! {

/// How far a deployment has come.
#[derive(Debug, PartialEq, Eq, Clone, Copy, Structural)]
pub enum Stage {
    /// the connector declared at this index is to be spawned
    Connector(usize),
    /// the pipeline declared at this index is to be spawned
    Pipeline(usize),
    /// of the link at the first index, the request at the second is to be made
    Link(usize, usize),
    /// the control task is to be spawned
    Task,
    /// the control task is to be told to start
    Announce,
    /// nothing is left to be done
    Finished,
}

/// A step of a deployment, for the runtime to take.
#[derive(Debug)]
pub enum Step {
    /// spawn the connector declared at index `decl`, under the URL of the
    /// instance `instance` of the connector `artefact`
    SpawnConnector { decl: usize, artefact: String, instance: String },
    /// spawn the pipeline declared at index `decl`, from its source in `src`,
    /// under the URL that `path` reads as
    SpawnPipeline { decl: usize, src: String, path: String },
    /// make this request
    Link(LinkAction),
    /// run this control task
    SpawnTask(FlowTask),
    /// send the control task a message to start
    SendStart,
    /// take the result
    Finish,
}

/// A deployment that is coming up.
#[derive(Debug)]
pub struct Startup {
    src: String,
    flow: DeployFlow,
    connectors: Registry,
    pipelines: Registry,
    stage: Stage,
    plan: Vec<LinkAction>,
    failure: Option<DeployError>,
}

/// The state of a deployment that is coming up.
#[verifier::ext_equal]
pub struct StartupView {
    /// the text that the flow is declared in
    pub src: String,
    pub flow: DeployFlow,
    /// the connectors spawned so far
    pub connectors: Instances,
    /// the pipelines spawned so far
    pub pipelines: Instances,
    pub stage: Stage,
    /// the requests that make the link at hand
    pub plan: Seq<LinkAction>,
    /// what the deployment failed with, if it did
    pub failure: Option<DeployError>,
}

/// `instances` holds exactly the first `n` of `names`.
pub open spec fn holds_names(instances: Instances, names: Seq<Seq<char>>, n: int) -> bool {
    forall|name: Seq<char>| #[trigger]
        instances.contains_key(name) <==> exists|j: int| 0 <= j < n && #[trigger] names[j] == name
}

/// The names of the connectors that `decls` declare.
pub open spec fn connector_names(decls: Seq<ConnectorDecl>) -> Seq<Seq<char>> {
    decls.map_values(|decl: ConnectorDecl| decl.instance_id@)
}

/// The names of the pipelines that `decls` declare.
pub open spec fn pipeline_names(decls: Seq<Query>) -> Seq<Seq<char>> {
    decls.map_values(|decl: Query| decl.instance_id@)
}

impl StartupView {
    pub open spec fn connector_decls(self) -> Seq<ConnectorDecl> {
        self.flow.decl.connectors@
    }

    pub open spec fn pipeline_decls(self) -> Seq<Query> {
        self.flow.decl.pipelines@
    }

    pub open spec fn links(self) -> Seq<ConnectStmt> {
        self.flow.decl.links@
    }

    /// The requests that make the link at index `i`, or why it cannot be made.
    pub open spec fn link_plan(self, i: int) -> Result<Seq<LinkAction>, DeployError> {
        link_plan(self.connectors, self.pipelines, self.links()[i])
    }

    /// The deployment, failed with `error`.
    pub open spec fn failed(self, error: DeployError) -> StartupView {
        StartupView { stage: Stage::Finished, failure: Some(error), ..self }
    }

    /// The deployment with the connectors before index `i` spawned.
    pub open spec fn at_connector(self, i: int) -> StartupView {
        if i < self.connector_decls().len() {
            StartupView { stage: Stage::Connector(i as usize), ..self }
        } else {
            self.at_pipeline(0)
        }
    }

    /// The deployment with all connectors and the pipelines before index `i` spawned.
    pub open spec fn at_pipeline(self, i: int) -> StartupView {
        if i < self.pipeline_decls().len() {
            StartupView { stage: Stage::Pipeline(i as usize), ..self }
        } else {
            self.at_link(0)
        }
    }

    /// The deployment with all instances spawned and the links before index `i` made.
    pub open spec fn at_link(self, i: int) -> StartupView {
        if i < self.links().len() {
            match self.link_plan(i) {
                Ok(plan) => StartupView { stage: Stage::Link(i as usize, 0), plan, ..self },
                Err(error) => self.failed(error),
            }
        } else {
            StartupView { stage: Stage::Task, ..self }
        }
    }

    /// The deployment after word of the instance that was to be spawned: the
    /// handles of its URL and its address, or why it was not spawned.
    pub open spec fn spawned(self, reply: Result<(u64, u64), String>) -> StartupView {
        match (self.stage, reply) {
            (Stage::Connector(i), Ok(instance)) => StartupView {
                connectors: self.connectors.insert(
                    self.connector_decls()[i as int].instance_id@,
                    instance,
                ),
                ..self
            }.at_connector(i + 1),
            (Stage::Pipeline(i), Ok(instance)) => StartupView {
                pipelines: self.pipelines.insert(
                    self.pipeline_decls()[i as int].instance_id@,
                    instance,
                ),
                ..self
            }.at_pipeline(i + 1),
            (_, Err(reason)) => self.failed(DeployError::Runtime(reason)),
            _ => self,
        }
    }

    /// The deployment after word of the request that was to be made.
    pub open spec fn done(self, reply: Result<(), String>) -> StartupView {
        match (self.stage, reply) {
            (Stage::Link(i, k), Ok(_)) => if k + 1 < self.plan.len() {
                StartupView { stage: Stage::Link(i, (k + 1) as usize), ..self }
            } else {
                self.at_link(i + 1)
            },
            (Stage::Link(_, k), Err(reason)) => self.failed(self.plan[k as int].failure(reason)),
            (Stage::Task, Ok(_)) => StartupView { stage: Stage::Announce, ..self },
            (Stage::Announce, Ok(_)) => StartupView { stage: Stage::Finished, ..self },
            (_, Err(reason)) => self.failed(DeployError::Runtime(reason)),
            _ => self,
        }
    }

    /// Exactly the connectors declared before index `n` are spawned.
    pub open spec fn connectors_spawned(self, n: int) -> bool {
        holds_names(self.connectors, connector_names(self.connector_decls()), n)
    }

    /// Exactly the pipelines declared before index `n` are spawned.
    pub open spec fn pipelines_spawned(self, n: int) -> bool {
        holds_names(self.pipelines, pipeline_names(self.pipeline_decls()), n)
    }

    /// All connectors and all pipelines are spawned, and nothing else.
    pub open spec fn all_spawned(self) -> bool {
        &&& self.connectors_spawned(self.connector_decls().len() as int)
        &&& self.pipelines_spawned(self.pipeline_decls().len() as int)
    }

    /// Both ends of each link before index `n` run.
    pub open spec fn ends_known(self, n: int) -> bool {
        forall|j: int|
            0 <= j < n ==> link_plan(
                self.connectors,
                self.pipelines,
                #[trigger] self.links()[j],
            ) is Ok
    }

    /// What holds of a deployment that is coming up at all times.
    pub open spec fn valid(self) -> bool {
        &&& self.stage != Stage::Finished ==> self.failure is None
        &&& match self.stage {
            Stage::Connector(i) => {
                &&& i < self.connector_decls().len()
                &&& self.connectors_spawned(i as int)
                &&& self.pipelines_spawned(0)
            },
            Stage::Pipeline(i) => {
                &&& i < self.pipeline_decls().len()
                &&& self.connectors_spawned(self.connector_decls().len() as int)
                &&& self.pipelines_spawned(i as int)
            },
            Stage::Link(i, k) => {
                &&& i < self.links().len()
                &&& k < self.plan.len()
                &&& self.link_plan(i as int) == Ok::<Seq<LinkAction>, DeployError>(self.plan)
                &&& self.ends_known(i as int)
                &&& self.all_spawned()
            },
            Stage::Task | Stage::Announce => {
                &&& self.ends_known(self.links().len() as int)
                &&& self.all_spawned()
            },
            Stage::Finished => self.failure is None ==> {
                &&& self.ends_known(self.links().len() as int)
                &&& self.all_spawned()
            },
        }
    }
}

impl View for Startup {
    type V = StartupView;

    closed spec fn view(&self) -> StartupView {
        StartupView {
            src: self.src,
            flow: self.flow,
            connectors: self.connectors@,
            pipelines: self.pipelines@,
            stage: self.stage,
            plan: self.plan@,
            failure: self.failure,
        }
    }
}

/// A deployment of `flow` of which nothing has been done.
pub open spec fn untouched(src: String, flow: DeployFlow) -> StartupView {
    StartupView {
        src,
        flow,
        connectors: Instances::empty(),
        pipelines: Instances::empty(),
        stage: Stage::Task,
        plan: Seq::empty(),
        failure: None,
    }
}

impl Deployment {
    /// Begins to deploy `flow`, which is declared in `src`.
    pub fn start(src: String, flow: DeployFlow) -> (startup: Startup)
        ensures
            startup@ == untouched(src, flow).at_connector(0),
            startup@.valid(),
    {
        let mut startup = Startup {
            src,
            flow,
            connectors: Registry::empty(),
            pipelines: Registry::empty(),
            stage: Stage::Task,
            plan: Vec::new(),
            failure: None,
        };
        startup.enter_connector(0);
        startup
    }
}

/// The text that is read as the URL of a pipeline.
pub open spec fn pipeline_path(decl: Query) -> Seq<char> {
    "/pipeline/"@ + decl.artifact_id@ + "/"@ + decl.instance_id@
}

/// The text that is read as the URL of the pipeline that `decl` declares.
pub fn url_path(decl: &Query) -> (path: String)
    ensures
        path@ == pipeline_path(*decl),
{
    "/pipeline/".to_string().concat(decl.artifact_id.as_str()).concat("/").concat(
        decl.instance_id.as_str(),
    )
}

pub(crate) proof fn lemma_name_added(
    instances: Instances,
    names: Seq<Seq<char>>,
    i: int,
    instance: (u64, u64),
)
    requires
        0 <= i < names.len(),
        holds_names(instances, names, i),
    ensures
        holds_names(instances.insert(names[i], instance), names, i + 1),
{
    let after = instances.insert(names[i], instance);
    assert forall|name: Seq<char>| #[trigger] after.contains_key(name) implies exists|j: int|
        0 <= j < i + 1 && #[trigger] names[j] == name by {
        if name != names[i] {
            assert(instances.contains_key(name));
        }
    }
    assert forall|name: Seq<char>|
        (exists|j: int| 0 <= j < i + 1 && #[trigger] names[j] == name) implies #[trigger]
    after.contains_key(name) by {
        if name != names[i] {
            assert(instances.contains_key(name));
        }
    }
}

pub(crate) proof fn lemma_ends_known(m: StartupView)
    requires
        m.ends_known(m.links().len() as int),
    ensures
        connectors_known(m.connectors, m.links()),
{
    assert forall|i: int, side: Side|
        #![trigger connector_on(side, m.links()[i])]
        0 <= i < m.links().len() implies (connector_on(side, m.links()[i]) matches Some(name)
        ==> m.connectors.contains_key(name)) by {
        law_link_plans_exactly_the_known(m.connectors, m.pipelines, m.links()[i]);
    }
}

impl Startup {
    fn enter_connector(&mut self, i: usize)
        requires
            i <= old(self)@.connector_decls().len(),
            old(self)@.connectors_spawned(i as int),
            old(self)@.pipelines_spawned(0),
            old(self)@.failure is None,
        ensures
            final(self)@ == old(self)@.at_connector(i as int),
            final(self)@.valid(),
    {
        if i < self.flow.decl.connectors.len() {
            self.stage = Stage::Connector(i);
        } else {
            self.enter_pipeline(0);
        }
    }

    fn enter_pipeline(&mut self, i: usize)
        requires
            i <= old(self)@.pipeline_decls().len(),
            old(self)@.connectors_spawned(old(self)@.connector_decls().len() as int),
            old(self)@.pipelines_spawned(i as int),
            old(self)@.failure is None,
        ensures
            final(self)@ == old(self)@.at_pipeline(i as int),
            final(self)@.valid(),
    {
        if i < self.flow.decl.pipelines.len() {
            self.stage = Stage::Pipeline(i);
        } else {
            self.enter_link(0);
        }
    }

    fn enter_link(&mut self, i: usize)
        requires
            i <= old(self)@.links().len(),
            old(self)@.ends_known(i as int),
            old(self)@.all_spawned(),
            old(self)@.failure is None,
        ensures
            final(self)@ == old(self)@.at_link(i as int),
            final(self)@.valid(),
    {
        if i < self.flow.decl.links.len() {
            match Deployment::link(&self.connectors, &self.pipelines, &self.flow.decl.links[i]) {
                Ok(plan) => {
                    self.plan = plan;
                    self.stage = Stage::Link(i, 0);
                },
                Err(error) => {
                    self.fail(error);
                },
            }
        } else {
            self.stage = Stage::Task;
        }
    }

    /// The step that is to be taken next.
    pub fn next(&self) -> (step: Step)
        requires
            self@.valid(),
        ensures
            match self@.stage {
                Stage::Connector(i) => step matches Step::SpawnConnector {
                    decl,
                    artefact,
                    instance,
                } && {
                    &&& decl == i
                    &&& artefact == self@.connector_decls()[i as int].artefact_id
                    &&& instance == self@.connector_decls()[i as int].instance_id
                },
                Stage::Pipeline(i) => step matches Step::SpawnPipeline { decl, src, path } && {
                    &&& decl == i
                    &&& src == self@.src
                    &&& path@ == pipeline_path(self@.pipeline_decls()[i as int])
                },
                Stage::Link(_, k) => step == Step::Link(self@.plan[k as int]),
                Stage::Task => step matches Step::SpawnTask(task) && {
                    &&& fresh(task@, self@.pipelines, self@.connectors, self@.links())
                    &&& valid(task@)
                },
                Stage::Announce => step == Step::SendStart,
                Stage::Finished => step == Step::Finish,
            },
    {
        match self.stage {
            Stage::Connector(i) => {
                let decl = &self.flow.decl.connectors[i];
                Step::SpawnConnector {
                    decl: i,
                    artefact: decl.artefact_id.clone(),
                    instance: decl.instance_id.clone(),
                }
            },
            Stage::Pipeline(i) => {
                let path = url_path(&self.flow.decl.pipelines[i]);
                Step::SpawnPipeline { decl: i, src: self.src.clone(), path }
            },
            Stage::Link(_, k) => Step::Link(self.plan[k].clone()),
            Stage::Task => {
                proof {
                    lemma_ends_known(self@);
                }
                Step::SpawnTask(
                    Deployment::spawn_task(
                        &self.pipelines,
                        &self.connectors,
                        &self.flow.decl.links,
                    ),
                )
            },
            Stage::Announce => Step::SendStart,
            Stage::Finished => Step::Finish,
        }
    }

    /// Takes word of the instance that was to be spawned: the handles of its
    /// URL and its address, or why it was not spawned.
    pub fn spawned(&mut self, reply: Result<(u64, u64), String>)
        requires
            old(self)@.valid(),
            old(self)@.stage is Connector || old(self)@.stage is Pipeline,
        ensures
            final(self)@ == old(self)@.spawned(reply),
            final(self)@.valid(),
    {
        match reply {
            Ok(instance) => match self.stage {
                Stage::Connector(i) => {
                    let id = ConnectorId::from(&self.flow.decl.connectors[i]);
                    self.connectors.register(id.0, instance);
                    proof {
                        lemma_name_added(
                            old(self)@.connectors,
                            connector_names(old(self)@.connector_decls()),
                            i as int,
                            instance,
                        );
                    }
                    assert(i < self.flow.decl.connectors.len());
                    self.enter_connector(i + 1);
                },
                Stage::Pipeline(i) => {
                    let id = PipelineId::from(&self.flow.decl.pipelines[i]);
                    self.pipelines.register(id.0, instance);
                    proof {
                        lemma_name_added(
                            old(self)@.pipelines,
                            pipeline_names(old(self)@.pipeline_decls()),
                            i as int,
                            instance,
                        );
                    }
                    assert(i < self.flow.decl.pipelines.len());
                    self.enter_pipeline(i + 1);
                },
                _ => {},
            },
            Err(reason) => {
                self.fail(DeployError::Runtime(reason));
            },
        }
    }

    /// Takes word of the request that was to be made, of the control task
    /// that was to be spawned or of the message that was to be sent.
    pub fn done(&mut self, reply: Result<(), String>)
        requires
            old(self)@.valid(),
            old(self)@.stage is Link || old(self)@.stage is Task || old(self)@.stage is Announce,
        ensures
            final(self)@ == old(self)@.done(reply),
            final(self)@.valid(),
    {
        match self.stage {
            Stage::Link(i, k) => match reply {
                Ok(_) => {
                    if k < self.plan.len() - 1 {
                        self.stage = Stage::Link(i, k + 1);
                    } else {
                        assert(i < self.flow.decl.links.len());
                        self.enter_link(i + 1);
                    }
                },
                Err(reason) => {
                    let error = self.plan[k].fail(reason);
                    self.fail(error);
                },
            },
            Stage::Task => match reply {
                Ok(_) => {
                    self.stage = Stage::Announce;
                },
                Err(reason) => {
                    self.fail(DeployError::Runtime(reason));
                },
            },
            Stage::Announce => match reply {
                Ok(_) => {
                    self.stage = Stage::Finished;
                },
                Err(reason) => {
                    self.fail(DeployError::Runtime(reason));
                },
            },
            _ => {},
        }
    }

    /// The deployment, or what it failed with.
    pub fn finish(self) -> (result: Result<Deployment, DeployError>)
        requires
            self@.stage == Stage::Finished,
        ensures
            match result {
                Ok(deployment) => self@.failure is None && deployment.links
                    == self@.flow.decl.links,
                Err(error) => self@.failure == Some(error),
            },
    {
        match self.failure {
            Some(error) => Err(error),
            None => Ok(Deployment { links: self.flow.decl.links }),
        }
    }

    /// How far the deployment has come.
    pub fn stage(&self) -> (stage: Stage)
        ensures
            stage == self@.stage,
    {
        self.stage
    }

    fn fail(&mut self, error: DeployError)
        ensures
            final(self)@ == old(self)@.failed(error),
    {
        self.stage = Stage::Finished;
        self.failure = Some(error);
    }
}

} // verus!
