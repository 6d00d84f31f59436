//! A deployed flow.
use crate::flow::ConnectStmt;
use vstd::prelude::*;

verus! {

/// A flow whose instances run and are linked.
#[derive(Debug)]
pub struct Deployment {
    pub links: Vec<ConnectStmt>,
}

} // verus!
