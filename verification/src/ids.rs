//! Names under which a deployment and its instances are known.
use crate::flow::{ConnectorDecl, DeployEndpoint, DeployFlow, Query};
use vstd::prelude::*;
use vstd::std_specs::cmp::{PartialEqSpec, PartialEqSpecImpl};
use vstd::std_specs::convert::FromSpecImpl;

verus! {

/// Name of a deployment.
#[derive(Debug, PartialOrd, Eq, Hash)]
pub struct DeploymentId(pub String);

/// Two names are equal just where their texts are.
impl PartialEq for DeploymentId {
    fn eq(&self, other: &Self) -> (equal: bool) {
        self.0 == other.0
    }
}

impl PartialEqSpecImpl for DeploymentId {
    open spec fn obeys_eq_spec() -> bool {
        true
    }

    open spec fn eq_spec(&self, other: &Self) -> bool {
        self.0@ == other.0@
    }
}

impl Clone for DeploymentId {
    fn clone(&self) -> (copy: Self)
        ensures
            copy == *self,
    {
        DeploymentId(self.0.clone())
    }
}

/// A deployment is named by the instance id of its flow.
impl From<&DeployFlow> for DeploymentId {
    fn from(f: &DeployFlow) -> (id: Self) {
        DeploymentId(f.instance_id.clone())
    }
}

impl FromSpecImpl<&DeployFlow> for DeploymentId {
    open spec fn obeys_from_spec() -> bool {
        true
    }

    open spec fn from_spec(f: &DeployFlow) -> Self {
        DeploymentId(f.instance_id)
    }
}

/// Name of a connector instance within a flow.
#[derive(Debug, PartialOrd, Eq, Hash)]
pub struct ConnectorId(pub String);

/// Two names are equal just where their texts are.
impl PartialEq for ConnectorId {
    fn eq(&self, other: &Self) -> (equal: bool) {
        self.0 == other.0
    }
}

impl PartialEqSpecImpl for ConnectorId {
    open spec fn obeys_eq_spec() -> bool {
        true
    }

    open spec fn eq_spec(&self, other: &Self) -> bool {
        self.0@ == other.0@
    }
}

/// An endpoint at a connector names it by its instance.
impl From<&DeployEndpoint> for ConnectorId {
    fn from(e: &DeployEndpoint) -> (id: Self) {
        ConnectorId(e.instance.clone())
    }
}

impl FromSpecImpl<&DeployEndpoint> for ConnectorId {
    open spec fn obeys_from_spec() -> bool {
        true
    }

    open spec fn from_spec(e: &DeployEndpoint) -> Self {
        ConnectorId(e.instance)
    }
}

/// A declared connector is named by its instance id.
impl From<&ConnectorDecl> for ConnectorId {
    fn from(e: &ConnectorDecl) -> (id: Self) {
        ConnectorId(e.instance_id.clone())
    }
}

impl FromSpecImpl<&ConnectorDecl> for ConnectorId {
    open spec fn obeys_from_spec() -> bool {
        true
    }

    open spec fn from_spec(e: &ConnectorDecl) -> Self {
        ConnectorId(e.instance_id)
    }
}

/// Name of a pipeline instance within a flow.
#[derive(Debug, PartialOrd, Eq, Hash)]
pub struct PipelineId(pub String);

/// Two names are equal just where their texts are.
impl PartialEq for PipelineId {
    fn eq(&self, other: &Self) -> (equal: bool) {
        self.0 == other.0
    }
}

impl PartialEqSpecImpl for PipelineId {
    open spec fn obeys_eq_spec() -> bool {
        true
    }

    open spec fn eq_spec(&self, other: &Self) -> bool {
        self.0@ == other.0@
    }
}

/// An endpoint at a pipeline names it by its instance.
impl From<&DeployEndpoint> for PipelineId {
    fn from(e: &DeployEndpoint) -> (id: Self) {
        PipelineId(e.instance.clone())
    }
}

impl FromSpecImpl<&DeployEndpoint> for PipelineId {
    open spec fn obeys_from_spec() -> bool {
        true
    }

    open spec fn from_spec(e: &DeployEndpoint) -> Self {
        PipelineId(e.instance)
    }
}

/// A declared pipeline is named by its instance id.
impl From<&Query> for PipelineId {
    fn from(e: &Query) -> (id: Self) {
        PipelineId(e.instance_id.clone())
    }
}

impl FromSpecImpl<&Query> for PipelineId {
    open spec fn obeys_from_spec() -> bool {
        true
    }

    open spec fn from_spec(e: &Query) -> Self {
        PipelineId(e.instance_id)
    }
}

/// `borrowed` is the text of `owned`.
pub open spec fn same_text(owned: &String, borrowed: &str) -> bool {
    owned@ == borrowed@
}

impl std::borrow::Borrow<str> for ConnectorId {
    fn borrow(&self) -> (text: &str)
        ensures
            same_text(&self.0, text),
    {
        self.0.as_str()
    }
}

impl std::borrow::Borrow<str> for PipelineId {
    fn borrow(&self) -> (text: &str)
        ensures
            same_text(&self.0, text),
    {
        self.0.as_str()
    }
}

/// Names of connectors are equal just where the texts that they borrow as are.
pub proof fn law_equal_connector_ids(x: ConnectorId, y: ConnectorId, x_text: &str, y_text: &str)
    requires
        same_text(&x.0, x_text),
        same_text(&y.0, y_text),
    ensures
        PartialEqSpec::eq_spec(&x, &y) <==> x_text@ == y_text@,
{
}

/// Names of pipelines are equal just where the texts that they borrow as are.
pub proof fn law_equal_pipeline_ids(x: PipelineId, y: PipelineId, x_text: &str, y_text: &str)
    requires
        same_text(&x.0, x_text),
        same_text(&y.0, y_text),
    ensures
        PartialEqSpec::eq_spec(&x, &y) <==> x_text@ == y_text@,
{
}

} // verus!
