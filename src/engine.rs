//! What each policy does to a request's execution context: one step of the
//! walk, decided here, with the outside work (backend calls, scripts) handed
//! to the caller.

use vstd::prelude::*;
use crate::definition::Policy;
use crate::dispatch::{dispatch, resolve_execute};
use crate::policy::{BetterInvoke, If, Javascript, ResponseHandler};
use crate::text::same_text;

verus! {

/// The state of one request: its body, the headers and context variables
/// assigned so far (a later assignment of a name overrides an earlier one),
/// the response status, and the error it carries, if any.
#[derive(Debug)]
pub struct ExecutionContext {
    pub body: Option<String>,
    pub headers: Vec<(String, String)>,
    pub variables: Vec<(String, String)>,
    pub status: u16,
    pub error: Option<String>,
}

/// Why a step fails.
#[derive(Debug, PartialEq, Eq)]
pub enum ExecError {
    /// A condition is neither `true` nor `false`.
    ConditionEvaluation,
    /// No case of an operation switch lists the inbound operation.
    NoMatchingCase,
    /// A response handler with `hard-fail` met a context in error: that
    /// error, propagated.
    Propagated(String),
}

/// What the walk does after one policy.
#[derive(Debug)]
pub enum Step<'a> {
    /// Go on with the next policy.
    Continue,
    /// Run these policies in place of this one, then go on.
    Descend(&'a Vec<Policy>),
    /// Call the backend, then go on.
    Invoke(&'a BetterInvoke),
    /// Run the script, then go on.
    Script(&'a Javascript),
    /// Stop with this failure.
    Fail(ExecError),
}

/// The value of a condition: `true` or `false`; any other text cannot be
/// evaluated.
pub open spec fn condition_value(c: Seq<char>) -> Option<bool> {
    if c == "true"@ {
        Some(true)
    } else if c == "false"@ {
        Some(false)
    } else {
        None
    }
}

/// Evaluates a condition.
pub fn evaluate_condition(c: &String) -> (r: Result<bool, ExecError>)
    ensures
        match condition_value(c@) {
            Some(b) => r == Ok::<bool, ExecError>(b),
            None => r == Err::<bool, ExecError>(ExecError::ConditionEvaluation),
        },
{
    if same_text(c, "true") {
        Ok(true)
    } else if same_text(c, "false") {
        Ok(false)
    } else {
        Err(ExecError::ConditionEvaluation)
    }
}

/// The text pairs of an optional assignment list.
pub open spec fn pair_texts(o: Option<Vec<(String, String)>>) -> Seq<(Seq<char>, Seq<char>)> {
    match o {
        Some(v) => v@.map_values(|p: (String, String)| (p.0@, p.1@)),
        None => Seq::empty(),
    }
}

/// The text pairs of a list of assignments.
pub open spec fn texts(v: Seq<(String, String)>) -> Seq<(Seq<char>, Seq<char>)> {
    v.map_values(|p: (String, String)| (p.0@, p.1@))
}

/// Appends copies of `src` to `dst`.
fn append_pairs(dst: &mut Vec<(String, String)>, src: &Vec<(String, String)>)
    ensures
        texts(final(dst)@) == texts(old(dst)@) + texts(src@),
{
    let mut k: usize = 0;
    while k < src.len()
        invariant
            k <= src@.len(),
            texts(dst@) == texts(old(dst)@) + texts(src@.subrange(0, k as int)),
        decreases src@.len() - k,
    {
        let a = src[k].0.clone();
        let b = src[k].1.clone();
        let ghost before = dst@;
        dst.push((a, b));
        assert(texts(dst@) == texts(before).push((src@[k as int].0@, src@[k as int].1@)));
        assert(src@.subrange(0, k as int + 1) == src@.subrange(0, k as int).push(src@[k as int]));
        assert(texts(src@.subrange(0, k as int + 1)) == texts(src@.subrange(0, k as int)).push((src@[k as int].0@, src@[k as int].1@)));
        assert(texts(old(dst)@) + texts(src@.subrange(0, k as int + 1)) == (texts(old(dst)@) + texts(src@.subrange(0, k as int))).push((src@[k as int].0@, src@[k as int].1@)));
        k = k + 1;
    }
    assert(src@.subrange(0, k as int) == src@);
}

/// Applies a response handler, in this order: the body is cleared if asked,
/// the context variables and then the headers are assigned, the status is
/// set; then, where `hard-fail` is set and the context already carries an
/// error, the step fails with that error.
pub fn apply_response_handler(ctx: &mut ExecutionContext, h: &ResponseHandler) -> (r: Result<(), ExecError>)
    ensures
        final(ctx).body == (if h.clear_body == Some(true) { None } else { old(ctx).body }),
        texts(final(ctx).variables@) == texts(old(ctx).variables@) + pair_texts(h.set_context),
        texts(final(ctx).headers@) == texts(old(ctx).headers@) + pair_texts(h.set_headers),
        final(ctx).status == (match h.success_code { Some(c) => c, None => old(ctx).status }),
        final(ctx).error == old(ctx).error,
        r is Err <==> (h.hard_fail == Some(true) && old(ctx).error is Some),
        r matches Err(e) ==> (e matches ExecError::Propagated(m) && old(ctx).error is Some && m@ == old(ctx).error->0@),
{
    if let Some(true) = h.clear_body {
        ctx.body = None;
    }
    match &h.set_context {
        Some(v) => append_pairs(&mut ctx.variables, v),
        None => {},
    }
    match &h.set_headers {
        Some(v) => append_pairs(&mut ctx.headers, v),
        None => {},
    }
    if let Some(c) = h.success_code {
        ctx.status = c;
    }
    if let Some(true) = h.hard_fail {
        if let Some(e) = &ctx.error {
            return Err(ExecError::Propagated(e.clone()));
        }
    }
    Ok(())
}

/// Runs an `if` node: on a true condition its policies run in its place; on a
/// false one it does nothing.
pub fn step_if<'a>(node: &'a If) -> (r: Step<'a>)
    ensures
        condition_value(node.condition@) == Some(true) ==> r == Step::Descend(&node.execute),
        condition_value(node.condition@) == Some(false) ==> r == Step::<'a>::Continue,
        condition_value(node.condition@) is None ==> r == Step::<'a>::Fail(ExecError::ConditionEvaluation),
{
    match evaluate_condition(&node.condition) {
        Ok(true) => Step::Descend(&node.execute),
        Ok(false) => Step::Continue,
        Err(e) => Step::Fail(e),
    }
}

/// One step of the walk for the inbound operation `(path, verb)`. Only a
/// response handler changes the context; annotations and policies of
/// unknown kind leave it as it is.
pub fn step<'a>(ctx: &mut ExecutionContext, p: &'a Policy, path: &str, verb: &str) -> (r: Step<'a>)
    ensures
        !(p is ResponseHandler) ==> *final(ctx) == *old(ctx),
        match p {
            Policy::SetEnvironment { .. } => r == Step::<'a>::Continue,
            Policy::ErrorMessageHandling { .. } => r == Step::<'a>::Continue,
            Policy::Other(_) => r == Step::<'a>::Continue,
            Policy::BetterInvoke { policy } => r == Step::Invoke(policy),
            Policy::Javascript { policy } => r == Step::Script(policy),
            Policy::If { policy } => match condition_value(policy.condition@) {
                Some(true) => r == Step::Descend(&policy.execute),
                Some(false) => r == Step::<'a>::Continue,
                None => r == Step::<'a>::Fail(ExecError::ConditionEvaluation),
            },
            Policy::OperationSwitch { policy } => match dispatch(policy.cases@, path@, verb@) {
                Some(k) => r == Step::Descend(&policy.cases@[k].execute),
                None => r == Step::<'a>::Fail(ExecError::NoMatchingCase),
            },
            Policy::ResponseHandler { policy } => {
                &&& final(ctx).body == (if policy.clear_body == Some(true) { None } else { old(ctx).body })
                &&& texts(final(ctx).variables@) == texts(old(ctx).variables@) + pair_texts(policy.set_context)
                &&& texts(final(ctx).headers@) == texts(old(ctx).headers@) + pair_texts(policy.set_headers)
                &&& final(ctx).status == (match policy.success_code { Some(c) => c, None => old(ctx).status })
                &&& final(ctx).error == old(ctx).error
                &&& if policy.hard_fail == Some(true) && old(ctx).error is Some {
                    r matches Step::Fail(ExecError::Propagated(m)) && old(ctx).error is Some && m@ == old(ctx).error->0@
                } else {
                    r == Step::<'a>::Continue
                }
            },
        },
{
    match p {
        Policy::SetEnvironment { .. } => Step::Continue,
        Policy::ErrorMessageHandling { .. } => Step::Continue,
        Policy::Other(_) => Step::Continue,
        Policy::BetterInvoke { policy } => Step::Invoke(policy),
        Policy::Javascript { policy } => Step::Script(policy),
        Policy::If { policy } => step_if(policy),
        Policy::OperationSwitch { policy } => match resolve_execute(policy, path, verb) {
            Some(v) => Step::Descend(v),
            None => Step::Fail(ExecError::NoMatchingCase),
        },
        Policy::ResponseHandler { policy } => match apply_response_handler(ctx, policy) {
            Ok(()) => Step::Continue,
            Err(e) => Step::Fail(e),
        },
    }
}

/// The condition `false` evaluates to false; by the contract of `step`, an
/// `if` node carrying it hands the walk on to the next policy and leaves the
/// context exactly as it was.
pub proof fn lemma_false_condition(node: If)
    requires
        node.condition@ == "false"@,
    ensures
        condition_value(node.condition@) == Some(false),
{
    assert(node.condition@ != "true"@) by {
        reveal_strlit("true");
        reveal_strlit("false");
        assert(node.condition@.len() != "true"@.len());
    }
}

} // verus!
