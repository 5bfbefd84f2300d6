//! Parsing the recursive policy tree.

use vstd::prelude::*;
use crate::definition::Policy;
use crate::policy::{If, Operation, OperationSwitch, OperationSwitchCase};
use crate::yaml::{Document, Node, field, lookup_from, members_before, str_at, get};
use crate::parse::{
    better_invoke_match, better_invoke_ok, described_ok, is_mapping, javascript_ok, operation_ok,
    req_text, response_handler_match, response_handler_ok, parse_better_invoke,
    parse_error_message_handling, parse_javascript, parse_operation, parse_response_handler,
    parse_set_environment, read_text, mapping_at,
};

verus! {

/// Whether no key of the known policy kinds stands in the mapping at `i`.
pub open spec fn no_known_key(d: Document, i: int) -> bool {
    &&& field(d, i, "set-environment"@) is None
    &&& field(d, i, "better-invoke"@) is None
    &&& field(d, i, "response-handler"@) is None
    &&& field(d, i, "operation-switch"@) is None
    &&& field(d, i, "error-message-handling"@) is None
    &&& field(d, i, "javascript"@) is None
    &&& field(d, i, "if"@) is None
}

/// The entries of the mapping at `i`.
pub open spec fn entries(d: Document, i: int) -> Seq<(usize, usize)> {
    d.nodes@[i]->Mapping_0@
}

/// Whether every key of the mapping at `i` is a string.
pub open spec fn string_keys(d: Document, i: int) -> bool {
    is_mapping(d, i) && forall|k: int| 0 <= k < entries(d, i).len() ==>
        (str_at(d, #[trigger] entries(d, i)[k].0 as int) is Some)
}

/// Whether `r` holds each entry of the mapping at `i`, in order: its key's
/// text and its value's index.
pub open spec fn other_match(d: Document, i: int, r: Seq<(String, usize)>) -> bool {
    &&& is_mapping(d, i)
    &&& r.len() == entries(d, i).len()
    &&& forall|k: int| 0 <= k < r.len() ==> {
        &&& str_at(d, entries(d, i)[k].0 as int) == Some(#[trigger] r[k].0@)
        &&& r[k].1 == entries(d, i)[k].1
    }
}

/// Whether the node at `i` is a list.
pub open spec fn is_list(d: Document, i: int) -> bool {
    0 <= i < d.nodes@.len() && d.nodes@[i] is List
}

/// The member indices of the list at `i`.
pub open spec fn items(d: Document, i: int) -> Seq<usize> {
    d.nodes@[i]->List_0@
}

/// Whether every member of the list at `o` reads as an operation.
pub open spec fn operations_read(d: Document, o: int) -> bool {
    is_list(d, o) && forall|k: int| 0 <= k < items(d, o).len() ==> operation_ok(d, #[trigger] items(d, o)[k] as int)
}

/// Whether the node at `i` reads as a policy: a mapping in which a known
/// kind's key holds a body that reads as that kind, or else a mapping whose
/// keys are all strings.
pub open spec fn policy_reads(d: Document, i: int) -> bool
    decreases i + 1, 0int,
{
    if i < 0 || !is_mapping(d, i) {
        false
    } else {
        let se = field(d, i, "set-environment"@);
        let bi = field(d, i, "better-invoke"@);
        let rh = field(d, i, "response-handler"@);
        let os = field(d, i, "operation-switch"@);
        let em = field(d, i, "error-message-handling"@);
        let js = field(d, i, "javascript"@);
        let cf = field(d, i, "if"@);
        ||| (se is Some && described_ok(d, se->0 as int))
        ||| (bi is Some && better_invoke_ok(d, bi->0 as int))
        ||| (rh is Some && response_handler_ok(d, rh->0 as int))
        ||| (os is Some && os->0 < i && switch_reads(d, os->0 as int))
        ||| (em is Some && described_ok(d, em->0 as int))
        ||| (js is Some && javascript_ok(d, js->0 as int))
        ||| (cf is Some && cf->0 < i && if_reads(d, cf->0 as int))
        ||| string_keys(d, i)
    }
}

/// Whether the members of the list at `l`, from position `k` on, all read as
/// policies.
pub open spec fn list_reads(d: Document, l: int, k: int) -> bool
    decreases l + 1, items(d, l).len() - k,
{
    if l < 0 || !is_list(d, l) || k < 0 {
        false
    } else if k >= items(d, l).len() {
        true
    } else {
        items(d, l)[k] < l && policy_reads(d, items(d, l)[k] as int) && list_reads(d, l, k + 1)
    }
}

/// Whether the node at `j` reads as an `if` body.
pub open spec fn if_reads(d: Document, j: int) -> bool
    decreases j + 1, 0int,
{
    let e = field(d, j, "execute"@);
    if j < 0 || !is_mapping(d, j) || req_text(d, j, "condition"@) is None || e is None || e->0 >= j {
        false
    } else {
        list_reads(d, e->0 as int, 0)
    }
}

/// Whether the node at `j` reads as an `operation-switch` body.
pub open spec fn switch_reads(d: Document, j: int) -> bool
    decreases j + 1, 0int,
{
    let c = field(d, j, "case"@);
    if j < 0 || !is_mapping(d, j) || req_text(d, j, "title"@) is None || c is None || c->0 >= j {
        false
    } else {
        cases_read(d, c->0 as int, 0)
    }
}

/// Whether the members of the list at `c`, from position `k` on, all read as
/// switch cases.
pub open spec fn cases_read(d: Document, c: int, k: int) -> bool
    decreases c + 1, items(d, c).len() - k,
{
    if c < 0 || !is_list(d, c) || k < 0 {
        false
    } else if k >= items(d, c).len() {
        true
    } else {
        items(d, c)[k] < c && case_reads(d, items(d, c)[k] as int) && cases_read(d, c, k + 1)
    }
}

/// Whether the node at `j` reads as a switch case.
pub open spec fn case_reads(d: Document, j: int) -> bool
    decreases j + 1, 0int,
{
    let o = field(d, j, "operations"@);
    let e = field(d, j, "execute"@);
    if j < 0 || !is_mapping(d, j) || o is None || !operations_read(d, o->0 as int) || e is None || e->0 >= j {
        false
    } else {
        list_reads(d, e->0 as int, 0)
    }
}

/// Whether `v` holds the operations of the list at `o`, in order.
pub open spec fn operations_match(d: Document, o: int, v: Seq<Operation>) -> bool {
    &&& operations_read(d, o)
    &&& v.len() == items(d, o).len()
    &&& forall|k: int| #![trigger v[k]] 0 <= k < v.len() ==> {
        &&& req_text(d, items(d, o)[k] as int, "path"@) == Some(v[k].path@)
        &&& req_text(d, items(d, o)[k] as int, "verb"@) == Some(v[k].verb@)
    }
}

/// Whether `p` is what the node at `i` reads as: the kind whose key holds
/// `p`'s body, with every field, and every nested policy, read from it.
pub open spec fn policy_match(d: Document, i: int, p: Policy) -> bool
    decreases i + 1, 0int,
{
    if i < 0 || !is_mapping(d, i) {
        false
    } else {
        match p {
            Policy::SetEnvironment { policy } => {
                let j = field(d, i, "set-environment"@);
                j is Some && described_ok(d, j->0 as int) && req_text(d, j->0 as int, "description"@) == Some(policy.description@)
            },
            Policy::BetterInvoke { policy } => {
                let j = field(d, i, "better-invoke"@);
                j is Some && better_invoke_ok(d, j->0 as int) && better_invoke_match(d, j->0 as int, policy)
            },
            Policy::ResponseHandler { policy } => {
                let j = field(d, i, "response-handler"@);
                j is Some && response_handler_ok(d, j->0 as int) && response_handler_match(d, j->0 as int, policy)
            },
            Policy::OperationSwitch { policy } => {
                let j = field(d, i, "operation-switch"@);
                j is Some && j->0 < i && switch_match(d, j->0 as int, policy)
            },
            Policy::ErrorMessageHandling { policy } => {
                let j = field(d, i, "error-message-handling"@);
                j is Some && described_ok(d, j->0 as int) && req_text(d, j->0 as int, "description"@) == Some(policy.description@)
            },
            Policy::Javascript { policy } => {
                let j = field(d, i, "javascript"@);
                j is Some && javascript_ok(d, j->0 as int) && req_text(d, j->0 as int, "title"@) == Some(policy.title@)
                    && req_text(d, j->0 as int, "source"@) == Some(policy.source@)
            },
            Policy::If { policy } => {
                let j = field(d, i, "if"@);
                j is Some && j->0 < i && if_match(d, j->0 as int, policy)
            },
            Policy::Other(v) => string_keys(d, i) && other_match(d, i, v@),
        }
    }
}

/// Whether `ps`, from position `k` on, holds what the members of the list at
/// `l` read as.
pub open spec fn list_match(d: Document, l: int, ps: Seq<Policy>, k: int) -> bool
    decreases l + 1, items(d, l).len() - k,
{
    if l < 0 || !is_list(d, l) || k < 0 || ps.len() != items(d, l).len() {
        false
    } else if k >= items(d, l).len() {
        true
    } else {
        &&& items(d, l)[k] < l
        &&& policy_match(d, items(d, l)[k] as int, ps[k])
        &&& kind_of(ps[k]) == chosen_kind(d, items(d, l)[k] as int)
        &&& list_match(d, l, ps, k + 1)
    }
}

/// Whether `f` is what the node at `j` reads as, as an `if` body.
pub open spec fn if_match(d: Document, j: int, f: If) -> bool
    decreases j + 1, 0int,
{
    let e = field(d, j, "execute"@);
    if j < 0 || !is_mapping(d, j) || req_text(d, j, "condition"@) != Some(f.condition@) || e is None || e->0 >= j {
        false
    } else {
        list_match(d, e->0 as int, f.execute@, 0)
    }
}

/// Whether `sw` is what the node at `j` reads as, as an `operation-switch`
/// body.
pub open spec fn switch_match(d: Document, j: int, sw: OperationSwitch) -> bool
    decreases j + 1, 0int,
{
    let c = field(d, j, "case"@);
    if j < 0 || !is_mapping(d, j) || req_text(d, j, "title"@) != Some(sw.title@) || c is None || c->0 >= j {
        false
    } else {
        cases_match(d, c->0 as int, sw.cases@, 0)
    }
}

/// Whether `cs`, from position `k` on, holds what the members of the list at
/// `c` read as, as switch cases.
pub open spec fn cases_match(d: Document, c: int, cs: Seq<OperationSwitchCase>, k: int) -> bool
    decreases c + 1, items(d, c).len() - k,
{
    if c < 0 || !is_list(d, c) || k < 0 || cs.len() != items(d, c).len() {
        false
    } else if k >= items(d, c).len() {
        true
    } else {
        items(d, c)[k] < c && case_match(d, items(d, c)[k] as int, cs[k]) && cases_match(d, c, cs, k + 1)
    }
}

/// Whether `x` is what the node at `j` reads as, as a switch case.
pub open spec fn case_match(d: Document, j: int, x: OperationSwitchCase) -> bool
    decreases j + 1, 0int,
{
    let o = field(d, j, "operations"@);
    let e = field(d, j, "execute"@);
    if j < 0 || !is_mapping(d, j) || o is None || !operations_match(d, o->0 as int, x.operations@) || e is None || e->0 >= j {
        false
    } else {
        list_match(d, e->0 as int, x.execute@, 0)
    }
}

/// The position, in the order in which kinds are tried, of the kind that
/// the node at `i` reads as; the last position stands for `Other`.
pub open spec fn chosen_kind(d: Document, i: int) -> int {
    let se = field(d, i, "set-environment"@);
    let bi = field(d, i, "better-invoke"@);
    let rh = field(d, i, "response-handler"@);
    let os = field(d, i, "operation-switch"@);
    let em = field(d, i, "error-message-handling"@);
    let js = field(d, i, "javascript"@);
    let cf = field(d, i, "if"@);
    if se is Some && described_ok(d, se->0 as int) {
        0
    } else if bi is Some && better_invoke_ok(d, bi->0 as int) {
        1
    } else if rh is Some && response_handler_ok(d, rh->0 as int) {
        2
    } else if os is Some && os->0 < i && switch_reads(d, os->0 as int) {
        3
    } else if em is Some && described_ok(d, em->0 as int) {
        4
    } else if js is Some && javascript_ok(d, js->0 as int) {
        5
    } else if cf is Some && cf->0 < i && if_reads(d, cf->0 as int) {
        6
    } else {
        7
    }
}

/// The position of a policy's kind in the order in which kinds are tried.
pub open spec fn kind_of(p: Policy) -> int {
    match p {
        Policy::SetEnvironment { .. } => 0,
        Policy::BetterInvoke { .. } => 1,
        Policy::ResponseHandler { .. } => 2,
        Policy::OperationSwitch { .. } => 3,
        Policy::ErrorMessageHandling { .. } => 4,
        Policy::Javascript { .. } => 5,
        Policy::If { .. } => 6,
        Policy::Other(_) => 7,
    }
}

/// A list matches from `k` on where each of its members does.
proof fn lemma_list_match(d: Document, l: int, ps: Seq<Policy>, k: int)
    requires
        0 <= l,
        is_list(d, l),
        ps.len() == items(d, l).len(),
        0 <= k <= ps.len(),
        forall|q: int| k <= q < ps.len() ==> #[trigger] items(d, l)[q] < l,
        forall|q: int| k <= q < ps.len() ==> policy_match(d, items(d, l)[q] as int, #[trigger] ps[q]),
        forall|q: int| k <= q < ps.len() ==> kind_of(#[trigger] ps[q]) == chosen_kind(d, items(d, l)[q] as int),
    ensures
        list_match(d, l, ps, k),
    decreases ps.len() - k,
{
    if k < ps.len() {
        lemma_list_match(d, l, ps, k + 1);
    }
}

/// A list of cases matches from `k` on where each of its members does.
proof fn lemma_cases_match(d: Document, c: int, cs: Seq<OperationSwitchCase>, k: int)
    requires
        0 <= c,
        is_list(d, c),
        cs.len() == items(d, c).len(),
        0 <= k <= cs.len(),
        forall|q: int| k <= q < cs.len() ==> #[trigger] items(d, c)[q] < c,
        forall|q: int| k <= q < cs.len() ==> case_match(d, items(d, c)[q] as int, #[trigger] cs[q]),
    ensures
        cases_match(d, c, cs, k),
    decreases cs.len() - k,
{
    if k < cs.len() {
        lemma_cases_match(d, c, cs, k + 1);
    }
}

/// The value found by a lookup is a value of the entries.
proof fn lemma_lookup_below(d: Document, es: Seq<(usize, usize)>, key: Seq<char>, k: int, b: int)
    requires
        forall|q: int| 0 <= q < es.len() ==> es[q].1 < b,
    ensures
        lookup_from(d, es, key, k) is Some ==> lookup_from(d, es, key, k)->0 < b,
    decreases es.len() - k,
{
    if 0 <= k < es.len() {
        lemma_lookup_below(d, es, key, k + 1, b);
    }
}

/// A field of a node stands before it in a well-formed document.
proof fn lemma_field_below(d: Document, i: int, key: Seq<char>)
    requires
        d.wf(),
        0 <= i < d.nodes@.len(),
    ensures
        field(d, i, key) is Some ==> field(d, i, key)->0 < i,
{
    assert(members_before(d.nodes@[i], i));
    if d.nodes@[i] is Mapping {
        lemma_lookup_below(d, d.nodes@[i]->Mapping_0@, key, 0, i);
    }
}

/// Reads the value of `key` in the mapping at `i`, with its index below `i`.
fn get_below(d: &Document, i: usize, key: &str) -> (r: Option<usize>)
    requires
        d.wf(),
        i < d.nodes@.len(),
    ensures
        r == field(*d, i as int, key@),
        r is Some ==> r->0 < i,
{
    proof {
        lemma_field_below(*d, i as int, key@);
    }
    get(d, i, key)
}

/// Reads the list of operations at `j`.
pub fn parse_operations(d: &Document, j: usize) -> (r: Option<Vec<Operation>>)
    ensures
        match r {
            Some(v) => operations_match(*d, j as int, v@) && operations_read(*d, j as int) && v@.len() == items(*d, j as int).len()
                && forall|k: int| #![trigger v@[k]] 0 <= k < v@.len() ==> {
                    &&& operation_ok(*d, items(*d, j as int)[k] as int)
                    &&& req_text(*d, items(*d, j as int)[k] as int, "path"@) == Some(v@[k].path@)
                    &&& req_text(*d, items(*d, j as int)[k] as int, "verb"@) == Some(v@[k].verb@)
                },
            None => !operations_read(*d, j as int),
        },
{
    if j >= d.nodes.len() {
        return None;
    }
    match &d.nodes[j] {
        Node::List(v) => {
            let mut out: Vec<Operation> = Vec::new();
            let mut k: usize = 0;
            while k < v.len()
                invariant
                    j < d.nodes@.len(),
                    d.nodes@[j as int] == Node::List(*v),
                    k <= v@.len(),
                    out@.len() == k,
                    forall|q: int| 0 <= q < k ==> operation_ok(*d, #[trigger] items(*d, j as int)[q] as int),
                    forall|q: int| 0 <= q < k ==> req_text(*d, items(*d, j as int)[q] as int, "path"@) == Some((#[trigger] out@[q]).path@),
                    forall|q: int| 0 <= q < k ==> req_text(*d, items(*d, j as int)[q] as int, "verb"@) == Some((#[trigger] out@[q]).verb@),
                decreases v@.len() - k,
            {
                assert(items(*d, j as int)[k as int] == v@[k as int]);
                let vk = v[k];
                match parse_operation(d, vk) {
                    Some(o) => out.push(o),
                    None => {
                        assert(!operation_ok(*d, items(*d, j as int)[k as int] as int));
                        return None;
                    },
                }
                k = k + 1;
            }
            Some(out)
        },
        _ => None,
    }
}

/// Reads the list of policies at `j`.
pub fn parse_policies(d: &Document, j: usize) -> (r: Option<Vec<Policy>>)
    requires
        d.wf(),
    ensures
        r is Some <==> list_reads(*d, j as int, 0),
        r matches Some(ps) ==> list_match(*d, j as int, ps@, 0),
    decreases j,
{
    if j >= d.nodes.len() {
        return None;
    }
    match &d.nodes[j] {
        Node::List(v) => {
            let mut out: Vec<Policy> = Vec::new();
            let mut k: usize = 0;
            while k < v.len()
                invariant
                    d.wf(),
                    j < d.nodes@.len(),
                    d.nodes@[j as int] == Node::List(*v),
                    k <= v@.len(),
                    out@.len() == k,
                    list_reads(*d, j as int, k as int) == list_reads(*d, j as int, 0),
                    forall|q: int| 0 <= q < k ==> policy_match(*d, items(*d, j as int)[q] as int, #[trigger] out@[q]),
                    forall|q: int| 0 <= q < k ==> kind_of(#[trigger] out@[q]) == chosen_kind(*d, items(*d, j as int)[q] as int),
                decreases v@.len() - k,
            {
                assert(members_before(d.nodes@[j as int], j as int));
                assert(d.nodes@[j as int]->List_0@[k as int] < j);
                assert(v@[k as int] < j);
                match parse_policy(d, v[k]) {
                    Some(p) => {
                        out.push(p);
                    },
                    None => {
                        return None;
                    },
                }
                k = k + 1;
            }
            proof {
                assert(members_before(d.nodes@[j as int], j as int));
                lemma_list_match(*d, j as int, out@, 0);
            }
            Some(out)
        },
        _ => None,
    }
}

/// Reads an `if` policy body: a condition and the policies it guards.
pub fn parse_if(d: &Document, j: usize) -> (r: Option<If>)
    requires
        d.wf(),
    ensures
        r is Some <==> if_reads(*d, j as int),
        r matches Some(f) ==> if_match(*d, j as int, f),
        r is Some ==> is_mapping(*d, j as int) && req_text(*d, j as int, "condition"@) == Some(r->0.condition@)
            && field(*d, j as int, "execute"@) is Some
            && r->0.execute@.len() == items(*d, field(*d, j as int, "execute"@)->0 as int).len(),
    decreases j,
{
    if !mapping_at(d, j) {
        return None;
    }
    let condition = match read_text(d, j, "condition") {
        Some(c) => c,
        None => {
            return None;
        },
    };
    let e = match get_below(d, j, "execute") {
        Some(e) => e,
        None => {
            return None;
        },
    };
    match parse_policies(d, e) {
        Some(execute) => Some(If { condition, execute }),
        None => None,
    }
}

/// Reads one case of an operation switch.
pub fn parse_case(d: &Document, j: usize) -> (r: Option<OperationSwitchCase>)
    requires
        d.wf(),
    ensures
        r is Some <==> case_reads(*d, j as int),
        r matches Some(x) ==> case_match(*d, j as int, x),
        r is Some ==> is_mapping(*d, j as int) && field(*d, j as int, "operations"@) is Some
            && field(*d, j as int, "execute"@) is Some
            && r->0.operations@.len() == items(*d, field(*d, j as int, "operations"@)->0 as int).len()
            && r->0.execute@.len() == items(*d, field(*d, j as int, "execute"@)->0 as int).len(),
    decreases j,
{
    if !mapping_at(d, j) {
        return None;
    }
    let operations = match get_below(d, j, "operations") {
        Some(o) => match parse_operations(d, o) {
            Some(v) => v,
            None => {
                return None;
            },
        },
        None => {
            return None;
        },
    };
    let e = match get_below(d, j, "execute") {
        Some(e) => e,
        None => {
            return None;
        },
    };
    match parse_policies(d, e) {
        Some(execute) => Some(OperationSwitchCase { operations, execute }),
        None => None,
    }
}

/// Reads an `operation-switch` policy body: a title and its cases in order.
pub fn parse_operation_switch(d: &Document, j: usize) -> (r: Option<OperationSwitch>)
    requires
        d.wf(),
    ensures
        r is Some <==> switch_reads(*d, j as int),
        r matches Some(sw) ==> switch_match(*d, j as int, sw),
        r is Some ==> is_mapping(*d, j as int) && req_text(*d, j as int, "title"@) == Some(r->0.title@)
            && field(*d, j as int, "case"@) is Some
            && r->0.cases@.len() == items(*d, field(*d, j as int, "case"@)->0 as int).len(),
    decreases j,
{
    if !mapping_at(d, j) {
        return None;
    }
    let title = match read_text(d, j, "title") {
        Some(t) => t,
        None => {
            return None;
        },
    };
    let c = match get_below(d, j, "case") {
        Some(c) => c,
        None => {
            return None;
        },
    };
    if c >= d.nodes.len() {
        return None;
    }
    match &d.nodes[c] {
        Node::List(v) => {
            let mut cases: Vec<OperationSwitchCase> = Vec::new();
            let mut k: usize = 0;
            while k < v.len()
                invariant
                    d.wf(),
                    c < j,
                    c < d.nodes@.len(),
                    d.nodes@[c as int] == Node::List(*v),
                    k <= v@.len(),
                    cases@.len() == k,
                    field(*d, j as int, "case"@) == Some(c),
                    is_mapping(*d, j as int),
                    req_text(*d, j as int, "title"@) == Some(title@),
                    cases_read(*d, c as int, k as int) == cases_read(*d, c as int, 0),
                    forall|q: int| 0 <= q < k ==> case_match(*d, items(*d, c as int)[q] as int, #[trigger] cases@[q]),
                decreases v@.len() - k,
            {
                assert(members_before(d.nodes@[c as int], c as int));
                assert(d.nodes@[c as int]->List_0@[k as int] < c);
                assert(v@[k as int] < c);
                match parse_case(d, v[k]) {
                    Some(x) => cases.push(x),
                    None => {
                        return None;
                    },
                }
                k = k + 1;
            }
            proof {
                assert(members_before(d.nodes@[c as int], c as int));
                lemma_cases_match(*d, c as int, cases@, 0);
            }
            Some(OperationSwitch { title, cases })
        },
        _ => None,
    }
}

/// Reads the entries of a policy of unknown kind.
pub fn parse_other(d: &Document, i: usize) -> (r: Option<Vec<(String, usize)>>)
    ensures
        match r {
            Some(v) => string_keys(*d, i as int) && other_match(*d, i as int, v@),
            None => !string_keys(*d, i as int),
        },
{
    if i >= d.nodes.len() {
        return None;
    }
    match &d.nodes[i] {
        Node::Mapping(es) => {
            let mut out: Vec<(String, usize)> = Vec::new();
            let mut k: usize = 0;
            while k < es.len()
                invariant
                    i < d.nodes@.len(),
                    d.nodes@[i as int] == Node::Mapping(*es),
                    k <= es@.len(),
                    out@.len() == k,
                    forall|q: int| 0 <= q < k ==> {
                        &&& str_at(*d, es@[q].0 as int) == Some(#[trigger] out@[q].0@)
                        &&& out@[q].1 == es@[q].1
                    },
                decreases es@.len() - k,
            {
                match crate::parse::string_at(d, es[k].0) {
                    Some(name) => out.push((name, es[k].1)),
                    None => {
                        assert(str_at(*d, entries(*d, i as int)[k as int].0 as int) is None);
                        return None;
                    },
                }
                k = k + 1;
            }
            assert(string_keys(*d, i as int)) by {
                assert forall|q: int| 0 <= q < es@.len() implies (str_at(*d, #[trigger] es@[q].0 as int) is Some) by {
                    assert(str_at(*d, es@[q].0 as int) == Some(out@[q].0@));
                }
            }
            Some(out)
        },
        _ => None,
    }
}

/// Reads one policy. The known kinds are tried in a fixed order: the first
/// whose key stands in the mapping and whose body reads wins; where none
/// does, the policy is kept whole as `Other`.
pub fn parse_policy(d: &Document, i: usize) -> (r: Option<Policy>)
    requires
        d.wf(),
    ensures
        r is Some <==> policy_reads(*d, i as int),
        r matches Some(p) ==> policy_match(*d, i as int, p) && kind_of(p) == chosen_kind(*d, i as int),
        // a policy of unknown kind is kept whole
        r matches Some(Policy::Other(v)) ==> string_keys(*d, i as int) && other_match(*d, i as int, v@),
        is_mapping(*d, i as int) && no_known_key(*d, i as int) ==> (r is Some <==> string_keys(*d, i as int))
            && (r is Some ==> r->0 is Other),
    decreases i,
{
    if !mapping_at(d, i) {
        return None;
    }
    if let Some(j) = get_below(d, i, "set-environment") {
        if let Some(policy) = parse_set_environment(d, j) {
            return Some(Policy::SetEnvironment { policy });
        }
    }
    if let Some(j) = get_below(d, i, "better-invoke") {
        if let Some(policy) = parse_better_invoke(d, j) {
            return Some(Policy::BetterInvoke { policy });
        }
    }
    if let Some(j) = get_below(d, i, "response-handler") {
        if let Some(policy) = parse_response_handler(d, j) {
            return Some(Policy::ResponseHandler { policy });
        }
    }
    if let Some(j) = get_below(d, i, "operation-switch") {
        if let Some(policy) = parse_operation_switch(d, j) {
            return Some(Policy::OperationSwitch { policy });
        }
    }
    if let Some(j) = get_below(d, i, "error-message-handling") {
        if let Some(policy) = parse_error_message_handling(d, j) {
            return Some(Policy::ErrorMessageHandling { policy });
        }
    }
    if let Some(j) = get_below(d, i, "javascript") {
        if let Some(policy) = parse_javascript(d, j) {
            return Some(Policy::Javascript { policy });
        }
    }
    if let Some(j) = get_below(d, i, "if") {
        if let Some(policy) = parse_if(d, j) {
            return Some(Policy::If { policy });
        }
    }
    match parse_other(d, i) {
        Some(v) => Some(Policy::Other(v)),
        None => None,
    }
}

/// A policy of unknown kind loses nothing: each entry of its mapping, in
/// order, is found in what `parse_policy` keeps, under the same key text and
/// with the index of the same raw value.
pub proof fn lemma_unknown_key_recoverable(d: Document, i: int, kept: Seq<(String, usize)>, k: int)
    requires
        other_match(d, i, kept),
        0 <= k < entries(d, i).len(),
    ensures
        str_at(d, entries(d, i)[k].0 as int) == Some(kept[k].0@),
        kept[k].1 == entries(d, i)[k].1,
{
    assert(str_at(d, entries(d, i)[k].0 as int) == Some(kept[k].0@));
}

/// A mapping that holds no key of a known kind and only string keys reads as
/// a policy: a policy of unknown kind never fails to parse.
pub proof fn lemma_unknown_policy_reads(d: Document, i: int)
    requires
        is_mapping(d, i),
        no_known_key(d, i),
        string_keys(d, i),
    ensures
        policy_reads(d, i),
{
}

} // verus!
