//! The operation dispatch rule: the first case whose operations hold the
//! inbound path and verb wins.

use vstd::prelude::*;
use crate::definition::Policy;
use crate::policy::{Operation, OperationSwitch, OperationSwitchCase};
use crate::text::same_text;

verus! {

/// Whether an operation is exactly the path and verb given.
pub open spec fn operation_is(o: Operation, path: Seq<char>, verb: Seq<char>) -> bool {
    o.path@ == path && o.verb@ == verb
}

/// Whether a case lists the operation `(path, verb)`.
pub open spec fn case_matches(c: OperationSwitchCase, path: Seq<char>, verb: Seq<char>) -> bool {
    exists|k: int| 0 <= k < c.operations@.len() && operation_is(#[trigger] c.operations@[k], path, verb)
}

/// The index of the first case from `k` on that lists `(path, verb)`.
pub open spec fn first_match_from(cases: Seq<OperationSwitchCase>, path: Seq<char>, verb: Seq<char>, k: int) -> Option<int>
    decreases cases.len() - k,
{
    if k < 0 || k >= cases.len() {
        None
    } else if case_matches(cases[k], path, verb) {
        Some(k)
    } else {
        first_match_from(cases, path, verb, k + 1)
    }
}

/// The index of the case that dispatch selects for `(path, verb)`.
pub open spec fn dispatch(cases: Seq<OperationSwitchCase>, path: Seq<char>, verb: Seq<char>) -> Option<int> {
    first_match_from(cases, path, verb, 0)
}

/// Whether a case lists `(path, verb)`.
pub fn case_has(c: &OperationSwitchCase, path: &str, verb: &str) -> (r: bool)
    ensures
        r == case_matches(*c, path@, verb@),
{
    let mut k: usize = 0;
    while k < c.operations.len()
        invariant
            k <= c.operations@.len(),
            forall|q: int| 0 <= q < k ==> !operation_is(#[trigger] c.operations@[q], path@, verb@),
        decreases c.operations@.len() - k,
    {
        let o = &c.operations[k];
        if same_text(&o.path, path) && same_text(&o.verb, verb) {
            return true;
        }
        k = k + 1;
    }
    false
}

/// The index of the first case of the switch that lists `(path, verb)`, or
/// `None` where no case does.
pub fn resolve(sw: &OperationSwitch, path: &str, verb: &str) -> (r: Option<usize>)
    ensures
        match r {
            Some(k) => dispatch(sw.cases@, path@, verb@) == Some(k as int),
            None => dispatch(sw.cases@, path@, verb@) is None,
        },
        match r {
            Some(k) => k < sw.cases@.len() && case_matches(sw.cases@[k as int], path@, verb@)
                && forall|m: int| 0 <= m < k ==> !case_matches(#[trigger] sw.cases@[m], path@, verb@),
            None => forall|m: int| 0 <= m < sw.cases@.len() ==> !case_matches(#[trigger] sw.cases@[m], path@, verb@),
        },
{
    let mut k: usize = 0;
    while k < sw.cases.len()
        invariant
            k <= sw.cases@.len(),
            first_match_from(sw.cases@, path@, verb@, k as int) == dispatch(sw.cases@, path@, verb@),
            forall|m: int| 0 <= m < k ==> !case_matches(#[trigger] sw.cases@[m], path@, verb@),
        decreases sw.cases@.len() - k,
    {
        if case_has(&sw.cases[k], path, verb) {
            return Some(k);
        }
        k = k + 1;
    }
    None
}

/// The policies that dispatch selects for `(path, verb)`: those of the first
/// matching case, or `None` where no case matches.
pub fn resolve_execute<'a>(sw: &'a OperationSwitch, path: &str, verb: &str) -> (r: Option<&'a Vec<Policy>>)
    ensures
        match dispatch(sw.cases@, path@, verb@) {
            Some(k) => r == Some(&sw.cases@[k].execute),
            None => r is None,
        },
{
    match resolve(sw, path, verb) {
        Some(k) => Some(&sw.cases[k].execute),
        None => None,
    }
}

proof fn lemma_first_match_at_most(cases: Seq<OperationSwitchCase>, path: Seq<char>, verb: Seq<char>, k: int, a: int)
    requires
        0 <= k <= a < cases.len(),
        case_matches(cases[a], path, verb),
    ensures
        first_match_from(cases, path, verb, k) is Some,
        k <= first_match_from(cases, path, verb, k)->0 <= a,
        case_matches(cases[first_match_from(cases, path, verb, k)->0], path, verb),
    decreases a - k,
{
    if !case_matches(cases[k], path, verb) {
        lemma_first_match_at_most(cases, path, verb, k + 1, a);
    }
}

/// Dispatch keeps declaration order: where two cases both list `(path,
/// verb)`, the one declared later is never selected, and the selected case
/// stands no later than the earlier one.
pub proof fn lemma_first_declared_wins(cases: Seq<OperationSwitchCase>, path: Seq<char>, verb: Seq<char>, a: int, b: int)
    requires
        0 <= a < b < cases.len(),
        case_matches(cases[a], path, verb),
        case_matches(cases[b], path, verb),
    ensures
        dispatch(cases, path, verb) is Some,
        dispatch(cases, path, verb)->0 <= a,
        dispatch(cases, path, verb) != Some(b),
{
    lemma_first_match_at_most(cases, path, verb, 0, a);
}

} // verus!
