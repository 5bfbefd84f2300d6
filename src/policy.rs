//! The policy kinds that an assembly runs.

use vstd::prelude::*;
use crate::definition::Policy;

verus! {

/// An annotation: it changes nothing when run.
#[derive(Debug)]
pub struct SetEnvironment {
    pub description: String,
}

/// A call to a backend.
#[derive(Debug)]
pub struct BetterInvoke {
    pub target_url: String,
    pub timeout: u16,
    pub verb: String,
    pub input_body: Option<String>,
    pub forever: Option<bool>,
}

/// How a backend's response is reshaped. Context variables and headers are
/// name / value pairs in document order.
#[derive(Debug)]
pub struct ResponseHandler {
    pub clear_body: Option<bool>,
    pub stjs_data_holder: Option<String>,
    pub success_code: Option<u16>,
    pub hard_fail: Option<bool>,
    pub set_context: Option<Vec<(String, String)>>,
    pub set_headers: Option<Vec<(String, String)>>,
    pub frontend: Option<bool>,
}

/// An inbound operation: a path and a verb.
#[derive(Debug)]
pub struct Operation {
    pub path: String,
    pub verb: String,
}

/// One branch of an operation switch: the operations that select it and the
/// policies it runs.
#[derive(Debug)]
pub struct OperationSwitchCase {
    pub operations: Vec<Operation>,
    pub execute: Vec<Policy>,
}

/// A branch on the inbound operation; the first matching case runs.
#[derive(Debug)]
pub struct OperationSwitch {
    pub title: String,
    pub cases: Vec<OperationSwitchCase>,
}

/// Shapes the error payload shown to the client.
#[derive(Debug)]
pub struct ErrorMessageHandling {
    pub description: String,
}

/// An inline script.
#[derive(Debug)]
pub struct Javascript {
    pub title: String,
    pub source: String,
}

/// A conditional branch.
#[derive(Debug)]
pub struct If {
    pub condition: String,
    pub execute: Vec<Policy>,
}

} // verus!
