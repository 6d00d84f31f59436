//! What can go wrong while a flow is deployed or controlled.
use vstd::prelude::*;

verus! {

/// Why a deployment, or a step of it, failed.
#[derive(Debug, PartialEq, Eq)]
pub enum DeployError {
    /// no connector runs under the instance that an endpoint of this artefact names
    ConnectorNotFound(String),
    /// no pipeline runs under the instance that an endpoint of this artefact names
    PipelineNotFound(String),
    /// a message did not reach a connector
    ConnectorSend(String),
    /// a message did not reach a pipeline
    PipelineSend(String),
    /// an error of the runtime, in its own words
    Runtime(String),
}

impl DeployError {
    /// The text that `message` renders.
    pub open spec fn text(self) -> Seq<char> {
        match self {
            DeployError::ConnectorNotFound(artefact) => "FIXME: connector "@ + artefact@
                + " not found"@,
            DeployError::PipelineNotFound(artefact) => "FIXME: pipeline "@ + artefact@
                + " not found"@,
            DeployError::ConnectorSend(reason) => "Could not send to connector: "@ + reason@,
            DeployError::PipelineSend(reason) => "Could not send to pipeline: "@ + reason@,
            DeployError::Runtime(reason) => reason@,
        }
    }

    /// The error as text.
    pub fn message(&self) -> (text: String)
        ensures
            text@ == self.text(),
    {
        match self {
            DeployError::ConnectorNotFound(artefact) => "FIXME: connector ".to_string().concat(
                artefact.as_str(),
            ).concat(" not found"),
            DeployError::PipelineNotFound(artefact) => "FIXME: pipeline ".to_string().concat(
                artefact.as_str(),
            ).concat(" not found"),
            DeployError::ConnectorSend(reason) => {
                "Could not send to connector: ".to_string().concat(reason.as_str())
            },
            DeployError::PipelineSend(reason) => {
                "Could not send to pipeline: ".to_string().concat(reason.as_str())
            },
            DeployError::Runtime(reason) => reason.clone(),
        }
    }
}

} // verus!
