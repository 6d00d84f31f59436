//! What names say of the instances they stand for.
use crate::flow::{ConnectorDecl, DeployEndpoint, DeployFlow, Query};
use crate::ids::{same_text, ConnectorId, DeploymentId, PipelineId};
use vstd::prelude::*;
use vstd::std_specs::cmp::PartialEqSpec;
use vstd::std_specs::convert::FromSpec;

verus! {

/// What a name borrows as is its text.
pub proof fn law_borrowed_text(owned: &String, borrowed: &str)
    ensures
        same_text(owned, borrowed) <==> owned@ == borrowed@,
{
}

/// Names of deployments are equal just where their texts are.
pub proof fn law_equal_deployment_ids(x: DeploymentId, y: DeploymentId)
    ensures
        PartialEqSpec::eq_spec(&x, &y) <==> x.0@ == y.0@,
{
}

/// A copy of a name of a deployment is the same name.
pub proof fn law_deployment_id_is_copied(id: &DeploymentId, copy: DeploymentId)
    requires
        call_ensures(<DeploymentId as Clone>::clone, (id,), copy),
    ensures
        copy.0@ == id.0@,
{
}

/// Names are compared and made as the laws on them say.
pub proof fn law_names_obey()
    ensures
        <DeploymentId as PartialEqSpec>::obeys_eq_spec(),
        <ConnectorId as PartialEqSpec>::obeys_eq_spec(),
        <PipelineId as PartialEqSpec>::obeys_eq_spec(),
        <DeploymentId as FromSpec<&DeployFlow>>::obeys_from_spec(),
        <ConnectorId as FromSpec<&DeployEndpoint>>::obeys_from_spec(),
        <ConnectorId as FromSpec<&ConnectorDecl>>::obeys_from_spec(),
        <PipelineId as FromSpec<&DeployEndpoint>>::obeys_from_spec(),
        <PipelineId as FromSpec<&Query>>::obeys_from_spec(),
{
}

/// A deployment goes by the instance id of its flow, so two flows are deployed
/// under one name just where their instance ids are the same.
pub proof fn law_deployment_goes_by_its_flow(x: &DeployFlow, y: &DeployFlow)
    ensures
        DeploymentId::from_spec(x).0@ == x.instance_id@,
        PartialEqSpec::eq_spec(&DeploymentId::from_spec(x), &DeploymentId::from_spec(y))
            <==> x.instance_id@ == y.instance_id@,
{
}

/// An end of a link leads to a connector just where the connector is declared
/// under the instance that the end names, whatever artefact and port it names.
pub proof fn law_end_leads_to_connector(end: &DeployEndpoint, decl: &ConnectorDecl)
    ensures
        ConnectorId::from_spec(end).0@ == end.instance@,
        ConnectorId::from_spec(decl).0@ == decl.instance_id@,
        PartialEqSpec::eq_spec(&ConnectorId::from_spec(end), &ConnectorId::from_spec(decl))
            <==> end.instance@ == decl.instance_id@,
{
}

/// An end of a link leads to a pipeline just where the pipeline is declared
/// under the instance that the end names, whatever artefact and port it names.
pub proof fn law_end_leads_to_pipeline(end: &DeployEndpoint, decl: &Query)
    ensures
        PipelineId::from_spec(end).0@ == end.instance@,
        PipelineId::from_spec(decl).0@ == decl.instance_id@,
        PartialEqSpec::eq_spec(&PipelineId::from_spec(end), &PipelineId::from_spec(decl))
            <==> end.instance@ == decl.instance_id@,
{
}

} // verus!
