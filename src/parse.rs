//! The tolerant parser: from a YAML document to the configuration model.

use vstd::prelude::*;
use crate::definition::ErrorCode;
use crate::policy::{BetterInvoke, ErrorMessageHandling, Javascript, Operation, ResponseHandler, SetEnvironment};
use crate::yaml::{Document, Node, field, str_at, get};
use crate::text::{all_digits, decimal_value, canonical_code, parse_u16, canonical_code_text};

verus! {

/// Whether the node at index `i` is a mapping.
pub open spec fn is_mapping(d: Document, i: int) -> bool {
    0 <= i < d.nodes@.len() && d.nodes@[i] is Mapping
}

/// Whether the node at index `i` is null.
pub open spec fn is_null(d: Document, i: int) -> bool {
    0 <= i < d.nodes@.len() && d.nodes@[i] is Null
}

/// A required string field of the mapping at `i`. Any scalar but null reads
/// as text (`str_at`): an unquoted number gives the decimal text that the
/// YAML reader makes of it (`swagger: 2.0` gives `2.0`).
pub open spec fn req_text(d: Document, i: int, key: Seq<char>) -> Option<Seq<char>> {
    match field(d, i, key) {
        Some(j) => str_at(d, j as int),
        None => None,
    }
}

/// An optional string field: absent or null gives `Some(None)`; a value of
/// another kind gives `None`.
pub open spec fn opt_text(d: Document, i: int, key: Seq<char>) -> Option<Option<Seq<char>>> {
    match field(d, i, key) {
        None => Some(None),
        Some(j) => if is_null(d, j as int) {
            Some(None)
        } else {
            match str_at(d, j as int) {
                Some(s) => Some(Some(s)),
                None => None,
            }
        },
    }
}

/// The boolean at index `j`.
pub open spec fn bool_at(d: Document, j: int) -> Option<bool> {
    if 0 <= j < d.nodes@.len() {
        match d.nodes@[j] {
            Node::Bool(b) => Some(b),
            _ => None,
        }
    } else {
        None
    }
}

/// An optional boolean field, read as `opt_text` reads strings.
pub open spec fn opt_flag(d: Document, i: int, key: Seq<char>) -> Option<Option<bool>> {
    match field(d, i, key) {
        None => Some(None),
        Some(j) => if is_null(d, j as int) {
            Some(None)
        } else {
            match bool_at(d, j as int) {
                Some(b) => Some(Some(b)),
                None => None,
            }
        },
    }
}

/// The `u16` that the number at index `j` writes.
pub open spec fn u16_at(d: Document, j: int) -> Option<u16> {
    if 0 <= j < d.nodes@.len() {
        match d.nodes@[j] {
            Node::Number(t) => if all_digits(t@) && decimal_value(t@) <= u16::MAX {
                Some(decimal_value(t@) as u16)
            } else {
                None
            },
            _ => None,
        }
    } else {
        None
    }
}

/// A required `u16` field.
pub open spec fn req_u16(d: Document, i: int, key: Seq<char>) -> Option<u16> {
    match field(d, i, key) {
        Some(j) => u16_at(d, j as int),
        None => None,
    }
}

/// An optional `u16` field, read as `opt_text` reads strings.
pub open spec fn opt_u16(d: Document, i: int, key: Seq<char>) -> Option<Option<u16>> {
    match field(d, i, key) {
        None => Some(None),
        Some(j) => if is_null(d, j as int) {
            Some(None)
        } else {
            match u16_at(d, j as int) {
                Some(v) => Some(Some(v)),
                None => None,
            }
        },
    }
}

/// The text of an optional string.
pub open spec fn text_of(o: Option<String>) -> Option<Seq<char>> {
    match o {
        Some(s) => Some(s@),
        None => None,
    }
}

/// The scalar at index `j`, read as a string.
pub fn string_at(d: &Document, j: usize) -> (r: Option<String>)
    ensures
        text_of(r) == str_at(*d, j as int),
{
    if j < d.nodes.len() {
        match &d.nodes[j] {
            Node::Str(s) => Some(s.clone()),
            Node::Number(s) => Some(s.clone()),
            Node::Bool(b) => if *b {
                Some("true".to_owned())
            } else {
                Some("false".to_owned())
            },
            _ => None,
        }
    } else {
        None
    }
}

/// Reads a required string field.
pub fn read_text(d: &Document, i: usize, key: &str) -> (r: Option<String>)
    ensures
        text_of(r) == req_text(*d, i as int, key@),
{
    match get(d, i, key) {
        Some(j) => string_at(d, j),
        None => None,
    }
}

/// Whether the node at `j` is null.
fn null_at(d: &Document, j: usize) -> (r: bool)
    ensures
        r == is_null(*d, j as int),
{
    j < d.nodes.len() && matches!(d.nodes[j], Node::Null)
}

/// Reads an optional string field.
pub fn read_opt_text(d: &Document, i: usize, key: &str) -> (r: Option<Option<String>>)
    ensures
        match r {
            Some(o) => opt_text(*d, i as int, key@) == Some(text_of(o)),
            None => opt_text(*d, i as int, key@) is None,
        },
{
    match get(d, i, key) {
        None => Some(None),
        Some(j) => if null_at(d, j) {
            Some(None)
        } else {
            match string_at(d, j) {
                Some(s) => Some(Some(s)),
                None => None,
            }
        },
    }
}

/// Reads an optional boolean field.
pub fn read_opt_flag(d: &Document, i: usize, key: &str) -> (r: Option<Option<bool>>)
    ensures
        r == opt_flag(*d, i as int, key@),
{
    match get(d, i, key) {
        None => Some(None),
        Some(j) => if null_at(d, j) {
            Some(None)
        } else if j < d.nodes.len() {
            match &d.nodes[j] {
                Node::Bool(b) => Some(Some(*b)),
                _ => None,
            }
        } else {
            None
        },
    }
}

/// The `u16` that the number at `j` writes.
pub fn number_at(d: &Document, j: usize) -> (r: Option<u16>)
    ensures
        r == u16_at(*d, j as int),
{
    if j < d.nodes.len() {
        match &d.nodes[j] {
            Node::Number(t) => parse_u16(t),
            _ => None,
        }
    } else {
        None
    }
}

/// Reads a required `u16` field.
pub fn read_u16(d: &Document, i: usize, key: &str) -> (r: Option<u16>)
    ensures
        r == req_u16(*d, i as int, key@),
{
    match get(d, i, key) {
        Some(j) => number_at(d, j),
        None => None,
    }
}

/// Reads an optional `u16` field.
pub fn read_opt_u16(d: &Document, i: usize, key: &str) -> (r: Option<Option<u16>>)
    ensures
        r == opt_u16(*d, i as int, key@),
{
    match get(d, i, key) {
        None => Some(None),
        Some(j) => if null_at(d, j) {
            Some(None)
        } else {
            match number_at(d, j) {
                Some(v) => Some(Some(v)),
                None => None,
            }
        },
    }
}

/// The canonical error code that the scalar at `j` writes: a number or a
/// string.
pub open spec fn code_at(d: Document, j: int) -> Option<Seq<char>> {
    if 0 <= j < d.nodes@.len() {
        match d.nodes@[j] {
            Node::Number(t) => Some(canonical_code(t@)),
            Node::Str(t) => Some(canonical_code(t@)),
            _ => None,
        }
    } else {
        None
    }
}

/// Reads the error code at `j`, normalised to its canonical text.
pub fn read_code(d: &Document, j: usize) -> (r: Option<ErrorCode>)
    ensures
        match r {
            Some(c) => code_at(*d, j as int) == Some(c.text@),
            None => code_at(*d, j as int) is None,
        },
{
    if j < d.nodes.len() {
        match &d.nodes[j] {
            Node::Number(t) => Some(ErrorCode { text: canonical_code_text(t.as_str()) }),
            Node::Str(t) => Some(ErrorCode { text: canonical_code_text(t.as_str()) }),
            _ => None,
        }
    } else {
        None
    }
}

/// Whether the node at `j` is a mapping.
pub fn mapping_at(d: &Document, j: usize) -> (r: bool)
    ensures
        r == is_mapping(*d, j as int),
{
    j < d.nodes.len() && matches!(d.nodes[j], Node::Mapping(_))
}

/// Whether no two entries of a mapping have keys that read as the same
/// text.
pub open spec fn distinct_keys(d: Document, es: Seq<(usize, usize)>) -> bool {
    forall|a: int, b: int| 0 <= a < b < es.len() && str_at(d, es[a].0 as int) is Some
        ==> #[trigger] str_at(d, es[a].0 as int) != #[trigger] str_at(d, es[b].0 as int)
}

/// Tells whether no two entries have keys that read as the same text.
pub fn keys_distinct(d: &Document, es: &Vec<(usize, usize)>) -> (r: bool)
    ensures
        r == distinct_keys(*d, es@),
{
    let n = es.len();
    let mut a: usize = 0;
    while a < n
        invariant
            n == es@.len(),
            a <= n,
            forall|x: int, y: int| 0 <= x < a && x < y < n && str_at(*d, es@[x].0 as int) is Some
                ==> #[trigger] str_at(*d, es@[x].0 as int) != #[trigger] str_at(*d, es@[y].0 as int),
        decreases n - a,
    {
        if let Some(ka) = string_at(d, es[a].0) {
            let mut b: usize = a + 1;
            while b < n
                invariant
                    n == es@.len(),
                    a < n,
                    a < b <= n,
                    str_at(*d, es@[a as int].0 as int) == Some(ka@),
                    forall|x: int, y: int| 0 <= x < a && x < y < n && str_at(*d, es@[x].0 as int) is Some
                        ==> #[trigger] str_at(*d, es@[x].0 as int) != #[trigger] str_at(*d, es@[y].0 as int),
                    forall|y: int| a < y < b ==> str_at(*d, es@[a as int].0 as int) != #[trigger] str_at(*d, es@[y].0 as int),
                decreases n - b,
            {
                if let Some(kb) = string_at(d, es[b].0) {
                    if ka.eq(&kb) {
                        assert(str_at(*d, es@[a as int].0 as int) == str_at(*d, es@[b as int].0 as int));
                        return false;
                    }
                }
                b = b + 1;
            }
        }
        a = a + 1;
    }
    true
}

/// The text pairs of the mapping at `j`, where every key and value is a
/// string and no key repeats.
pub open spec fn pairs_ok(d: Document, j: int) -> bool {
    is_mapping(d, j) && distinct_keys(d, d.nodes@[j]->Mapping_0@) && forall|k: int| 0 <= k < d.nodes@[j]->Mapping_0@.len() ==>
        (str_at(d, #[trigger] d.nodes@[j]->Mapping_0@[k].0 as int) is Some
            && str_at(d, d.nodes@[j]->Mapping_0@[k].1 as int) is Some)
}

/// Whether `r` holds the text pairs of the mapping at `j`, in order.
pub open spec fn pairs_match(d: Document, j: int, r: Seq<(String, String)>) -> bool {
    &&& is_mapping(d, j)
    &&& r.len() == d.nodes@[j]->Mapping_0@.len()
    &&& forall|k: int| 0 <= k < r.len() ==> {
        &&& str_at(d, d.nodes@[j]->Mapping_0@[k].0 as int) == Some(#[trigger] r[k].0@)
        &&& str_at(d, d.nodes@[j]->Mapping_0@[k].1 as int) == Some(r[k].1@)
    }
}

/// Reads a mapping of strings to strings.
pub fn read_pairs(d: &Document, j: usize) -> (r: Option<Vec<(String, String)>>)
    ensures
        match r {
            Some(v) => pairs_ok(*d, j as int) && pairs_match(*d, j as int, v@),
            None => !pairs_ok(*d, j as int),
        },
{
    if j >= d.nodes.len() {
        return None;
    }
    match &d.nodes[j] {
        Node::Mapping(es) => {
            if !keys_distinct(d, es) {
                return None;
            }
            let mut out: Vec<(String, String)> = Vec::new();
            let mut k: usize = 0;
            while k < es.len()
                invariant
                    j < d.nodes@.len(),
                    d.nodes@[j as int] == Node::Mapping(*es),
                    k <= es@.len(),
                    out@.len() == k,
                    forall|q: int| 0 <= q < k ==> {
                        &&& str_at(*d, es@[q].0 as int) == Some(#[trigger] out@[q].0@)
                        &&& str_at(*d, es@[q].1 as int) == Some(out@[q].1@)
                    },
                decreases es@.len() - k,
            {
                let a = string_at(d, es[k].0);
                let b = string_at(d, es[k].1);
                match (a, b) {
                    (Some(x), Some(y)) => {
                        out.push((x, y));
                    },
                    _ => {
                        return None;
                    },
                }
                k = k + 1;
            }
            assert(pairs_ok(*d, j as int)) by {
                assert forall|q: int| 0 <= q < es@.len() implies (str_at(*d, #[trigger] es@[q].0 as int) is Some
                    && str_at(*d, es@[q].1 as int) is Some) by {
                    assert(str_at(*d, es@[q].0 as int) == Some(out@[q].0@));
                }
            }
            Some(out)
        },
        _ => None,
    }
}

/// An optional string mapping field: absent or null gives `Some(None)`.
pub open spec fn opt_pairs_ok(d: Document, i: int, key: Seq<char>) -> bool {
    match field(d, i, key) {
        None => true,
        Some(j) => is_null(d, j as int) || pairs_ok(d, j as int),
    }
}

/// Whether `r` is what an optional string mapping field holds.
pub open spec fn opt_pairs_match(d: Document, i: int, key: Seq<char>, r: Option<Vec<(String, String)>>) -> bool {
    match field(d, i, key) {
        None => r is None,
        Some(j) => if is_null(d, j as int) {
            r is None
        } else {
            r is Some && pairs_match(d, j as int, r->0@)
        },
    }
}

/// Reads an optional string mapping field.
pub fn read_opt_pairs(d: &Document, i: usize, key: &str) -> (r: Option<Option<Vec<(String, String)>>>)
    ensures
        match r {
            Some(o) => opt_pairs_ok(*d, i as int, key@) && opt_pairs_match(*d, i as int, key@, o),
            None => !opt_pairs_ok(*d, i as int, key@),
        },
{
    match get(d, i, key) {
        None => Some(None),
        Some(j) => if null_at(d, j) {
            Some(None)
        } else {
            match read_pairs(d, j) {
                Some(v) => Some(Some(v)),
                None => None,
            }
        },
    }
}

/// Whether the node at `j` reads as an annotation with a description.
pub open spec fn described_ok(d: Document, j: int) -> bool {
    is_mapping(d, j) && req_text(d, j, "description"@) is Some
}

/// Reads a `set-environment` policy body.
pub fn parse_set_environment(d: &Document, j: usize) -> (r: Option<SetEnvironment>)
    ensures
        match r {
            Some(p) => described_ok(*d, j as int) && req_text(*d, j as int, "description"@) == Some(p.description@),
            None => !described_ok(*d, j as int),
        },
{
    if !mapping_at(d, j) {
        return None;
    }
    match read_text(d, j, "description") {
        Some(description) => Some(SetEnvironment { description }),
        None => None,
    }
}

/// Reads an `error-message-handling` policy body.
pub fn parse_error_message_handling(d: &Document, j: usize) -> (r: Option<ErrorMessageHandling>)
    ensures
        match r {
            Some(p) => described_ok(*d, j as int) && req_text(*d, j as int, "description"@) == Some(p.description@),
            None => !described_ok(*d, j as int),
        },
{
    if !mapping_at(d, j) {
        return None;
    }
    match read_text(d, j, "description") {
        Some(description) => Some(ErrorMessageHandling { description }),
        None => None,
    }
}

/// Whether the node at `j` reads as a script policy.
pub open spec fn javascript_ok(d: Document, j: int) -> bool {
    is_mapping(d, j) && req_text(d, j, "title"@) is Some && req_text(d, j, "source"@) is Some
}

/// Reads a `javascript` policy body.
pub fn parse_javascript(d: &Document, j: usize) -> (r: Option<Javascript>)
    ensures
        match r {
            Some(p) => javascript_ok(*d, j as int) && req_text(*d, j as int, "title"@) == Some(p.title@)
                && req_text(*d, j as int, "source"@) == Some(p.source@),
            None => !javascript_ok(*d, j as int),
        },
{
    if !mapping_at(d, j) {
        return None;
    }
    let title = read_text(d, j, "title");
    let source = read_text(d, j, "source");
    match (title, source) {
        (Some(title), Some(source)) => Some(Javascript { title, source }),
        _ => None,
    }
}

/// Whether the node at `j` reads as an operation.
pub open spec fn operation_ok(d: Document, j: int) -> bool {
    is_mapping(d, j) && req_text(d, j, "path"@) is Some && req_text(d, j, "verb"@) is Some
}

/// Reads an operation: a path and a verb.
pub fn parse_operation(d: &Document, j: usize) -> (r: Option<Operation>)
    ensures
        match r {
            Some(p) => operation_ok(*d, j as int) && req_text(*d, j as int, "path"@) == Some(p.path@)
                && req_text(*d, j as int, "verb"@) == Some(p.verb@),
            None => !operation_ok(*d, j as int),
        },
{
    if !mapping_at(d, j) {
        return None;
    }
    let path = read_text(d, j, "path");
    let verb = read_text(d, j, "verb");
    match (path, verb) {
        (Some(path), Some(verb)) => Some(Operation { path, verb }),
        _ => None,
    }
}

/// Whether the node at `j` reads as a backend call.
pub open spec fn better_invoke_ok(d: Document, j: int) -> bool {
    &&& is_mapping(d, j)
    &&& req_text(d, j, "target-url"@) is Some
    &&& req_u16(d, j, "timeout"@) is Some
    &&& req_text(d, j, "verb"@) is Some
    &&& opt_text(d, j, "input-body"@) is Some
    &&& opt_flag(d, j, "forever"@) is Some
}

/// Whether `p` holds the fields of the backend call at `j`.
pub open spec fn better_invoke_match(d: Document, j: int, p: BetterInvoke) -> bool {
    &&& req_text(d, j, "target-url"@) == Some(p.target_url@)
    &&& req_u16(d, j, "timeout"@) == Some(p.timeout)
    &&& req_text(d, j, "verb"@) == Some(p.verb@)
    &&& opt_text(d, j, "input-body"@) == Some(text_of(p.input_body))
    &&& opt_flag(d, j, "forever"@) == Some(p.forever)
}

/// Reads a `better-invoke` policy body.
pub fn parse_better_invoke(d: &Document, j: usize) -> (r: Option<BetterInvoke>)
    ensures
        match r {
            Some(p) => better_invoke_ok(*d, j as int) && better_invoke_match(*d, j as int, p),
            None => !better_invoke_ok(*d, j as int),
        },
{
    if !mapping_at(d, j) {
        return None;
    }
    let target_url = read_text(d, j, "target-url");
    let timeout = read_u16(d, j, "timeout");
    let verb = read_text(d, j, "verb");
    let input_body = read_opt_text(d, j, "input-body");
    let forever = read_opt_flag(d, j, "forever");
    match (target_url, timeout, verb, input_body, forever) {
        (Some(target_url), Some(timeout), Some(verb), Some(input_body), Some(forever)) =>
            Some(BetterInvoke { target_url, timeout, verb, input_body, forever }),
        _ => None,
    }
}

/// Whether the node at `j` reads as a response handler.
pub open spec fn response_handler_ok(d: Document, j: int) -> bool {
    &&& is_mapping(d, j)
    &&& opt_flag(d, j, "clear-body"@) is Some
    &&& opt_text(d, j, "stjs-data-holder"@) is Some
    &&& opt_u16(d, j, "success-code"@) is Some
    &&& opt_flag(d, j, "hard-fail"@) is Some
    &&& opt_pairs_ok(d, j, "set-context"@)
    &&& opt_pairs_ok(d, j, "set-headers"@)
    &&& opt_flag(d, j, "frontend"@) is Some
}

/// Whether `p` holds the fields of the response handler at `j`.
pub open spec fn response_handler_match(d: Document, j: int, p: ResponseHandler) -> bool {
    &&& opt_flag(d, j, "clear-body"@) == Some(p.clear_body)
    &&& opt_text(d, j, "stjs-data-holder"@) == Some(text_of(p.stjs_data_holder))
    &&& opt_u16(d, j, "success-code"@) == Some(p.success_code)
    &&& opt_flag(d, j, "hard-fail"@) == Some(p.hard_fail)
    &&& opt_pairs_match(d, j, "set-context"@, p.set_context)
    &&& opt_pairs_match(d, j, "set-headers"@, p.set_headers)
    &&& opt_flag(d, j, "frontend"@) == Some(p.frontend)
}

/// Reads a `response-handler` policy body.
pub fn parse_response_handler(d: &Document, j: usize) -> (r: Option<ResponseHandler>)
    ensures
        match r {
            Some(p) => response_handler_ok(*d, j as int) && response_handler_match(*d, j as int, p),
            None => !response_handler_ok(*d, j as int),
        },
{
    if !mapping_at(d, j) {
        return None;
    }
    let clear_body = read_opt_flag(d, j, "clear-body");
    let stjs_data_holder = read_opt_text(d, j, "stjs-data-holder");
    let success_code = read_opt_u16(d, j, "success-code");
    let hard_fail = read_opt_flag(d, j, "hard-fail");
    let set_context = read_opt_pairs(d, j, "set-context");
    let set_headers = read_opt_pairs(d, j, "set-headers");
    let frontend = read_opt_flag(d, j, "frontend");
    match (clear_body, stjs_data_holder, success_code, hard_fail, set_context, set_headers, frontend) {
        (Some(clear_body), Some(stjs_data_holder), Some(success_code), Some(hard_fail), Some(set_context), Some(set_headers), Some(frontend)) =>
            Some(ResponseHandler { clear_body, stjs_data_holder, success_code, hard_fail, set_context, set_headers, frontend }),
        _ => None,
    }
}

} // verus!
