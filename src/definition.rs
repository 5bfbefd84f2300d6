//! The configuration model of one API definition.

use vstd::prelude::*;
use crate::policy::{
    BetterInvoke, ErrorMessageHandling, If, Javascript, OperationSwitch, ResponseHandler,
    SetEnvironment,
};
use crate::yaml::Document;

verus! {

#[derive(Debug)]
pub struct Info {
    pub version: String,
    pub title: String,
    pub description: String,
}

#[derive(Debug)]
pub struct Parameter {
    pub location: String,
    pub name: String,
    pub description: Option<String>,
}

#[derive(Debug)]
pub struct SubError {
    pub code: u16,
    pub message: String,
}

/// How a successful payload is extracted and shaped.
#[derive(Debug)]
pub struct ContentSchema {
    pub path: String,
    pub property: String,
    pub message: Option<String>,
    pub code: Option<u16>,
    pub content_type: Option<String>,
}

/// An error code in canonical text, whichever of integer, float or string it
/// was written as.
#[derive(Debug)]
pub struct ErrorCode {
    pub text: String,
}

#[derive(Debug)]
pub struct ErrorSchema {
    pub code: ErrorCode,
    pub message: String,
    pub sub_errors: Option<Vec<SubError>>,
}

/// A response schema: a content schema or an error schema.
#[derive(Debug)]
#[allow(inconsistent_fields)]
pub enum ResponseSchema {
    Content { schema: ContentSchema },
    Error { schema: ErrorSchema },
}

#[derive(Debug)]
pub struct Response {
    pub description: String,
    pub schemas: Vec<ResponseSchema>,
}

#[derive(Debug)]
pub struct Method {
    pub parameters: Option<Vec<Parameter>>,
    pub summary: Option<String>,
    pub description: Option<String>,
    pub responses: Option<Vec<(u16, Response)>>,
}

/// One node of the policy tree. `Other` keeps an unrecognised policy as its
/// key names and the indices of their raw values in the document.
#[derive(Debug)]
#[allow(inconsistent_fields)]
pub enum Policy {
    SetEnvironment { policy: SetEnvironment },
    BetterInvoke { policy: BetterInvoke },
    ResponseHandler { policy: ResponseHandler },
    OperationSwitch { policy: OperationSwitch },
    ErrorMessageHandling { policy: ErrorMessageHandling },
    Javascript { policy: Javascript },
    If { policy: If },
    Other(Vec<(String, usize)>),
}

/// The policies in execution order, and the raw catch clauses (indices in the
/// document).
#[derive(Debug)]
pub struct Assembly {
    pub policies: Vec<Policy>,
    pub catch: Vec<usize>,
}

#[derive(Debug)]
pub struct Switch {
    pub assembly: Assembly,
}

/// One parsed definition, with the document that its raw values live in.
#[derive(Debug)]
pub struct Definition {
    pub info: Info,
    pub base_path: String,
    pub swagger: String,
    pub consumes: Vec<String>,
    pub produces: Vec<String>,
    pub paths: Vec<(String, Vec<(String, Method)>)>,
    pub switch: Switch,
    pub schemes: Vec<String>,
    pub document: Document,
}

} // verus!
