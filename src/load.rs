//! Parsing a whole definition: API metadata, paths, methods, responses and
//! the assembly.

use vstd::prelude::*;
use crate::definition::{
    Assembly, ContentSchema, Definition, ErrorSchema, Info, Method, Parameter, Response,
    ResponseSchema, SubError, Switch,
};
use crate::parse::{distinct_keys, keys_distinct, 
    code_at, is_mapping, mapping_at, opt_text, opt_u16, read_code, read_opt_text, read_opt_u16,
    read_text, read_u16, req_text, req_u16, string_at, text_of, number_at, u16_at,
};
use crate::tree::{entries, is_list, items, list_match, list_reads, parse_policies};
use crate::yaml::{Document, Node, field, get, key_at, read_yaml, str_at, yaml_document_of};
use crate::text::same_text;

verus! {

/// Why a definition is refused.
#[derive(Debug, PartialEq, Eq)]
pub enum ConfigParseError {
    /// The text is no YAML document; the YAML reader's message.
    Syntax(String),
    /// A field is missing or of the wrong shape; the top-level field in
    /// which the fault lies.
    Structure(String),
}

/// The keys under which a response holds a content schema.
pub open spec fn content_key(k: Seq<char>) -> bool {
    k == "x-js-schema"@ || k == "x-js-content"@ || k == "x-js-type"@
}

/// The keys under which a response holds an error schema.
pub open spec fn error_key(k: Seq<char>) -> bool {
    k == "x-js-error-content"@ || k == "x-error-message"@
}

/// Whether the node at `j` reads as a content schema.
pub open spec fn content_ok(d: Document, j: int) -> bool {
    &&& is_mapping(d, j)
    &&& req_text(d, j, "path"@) is Some
    &&& req_text(d, j, "property"@) is Some
    &&& opt_text(d, j, "message"@) is Some
    &&& opt_u16(d, j, "code"@) is Some
    &&& opt_text(d, j, "type"@) is Some
}

/// Whether the node at `j` reads as an error schema (its sub-errors aside).
pub open spec fn error_head_ok(d: Document, j: int) -> bool {
    &&& is_mapping(d, j)
    &&& field(d, j, "code"@) is Some
    &&& code_at(d, field(d, j, "code"@)->0 as int) is Some
    &&& req_text(d, j, "message"@) is Some
}

/// Whether the key at index `k` is a content key.
fn is_content_key(d: &Document, k: usize) -> (r: bool)
    ensures
        r == (key_at(*d, k as int) is Some && content_key(key_at(*d, k as int)->0)),
{
    if k >= d.nodes.len() {
        return false;
    }
    match &d.nodes[k] {
        Node::Str(s) => same_text(s, "x-js-schema") || same_text(s, "x-js-content") || same_text(s, "x-js-type"),
        Node::Number(s) => same_text(s, "x-js-schema") || same_text(s, "x-js-content") || same_text(s, "x-js-type"),
        _ => false,
    }
}

/// Whether the key at index `k` is an error key.
fn is_error_key(d: &Document, k: usize) -> (r: bool)
    ensures
        r == (key_at(*d, k as int) is Some && error_key(key_at(*d, k as int)->0)),
{
    if k >= d.nodes.len() {
        return false;
    }
    match &d.nodes[k] {
        Node::Str(s) => same_text(s, "x-js-error-content") || same_text(s, "x-error-message"),
        Node::Number(s) => same_text(s, "x-js-error-content") || same_text(s, "x-error-message"),
        _ => false,
    }
}

/// Whether `c` holds every field of the content schema at `j`.
pub open spec fn content_match(d: Document, j: int, c: ContentSchema) -> bool {
    &&& req_text(d, j, "path"@) == Some(c.path@)
    &&& req_text(d, j, "property"@) == Some(c.property@)
    &&& opt_text(d, j, "message"@) == Some(text_of(c.message))
    &&& opt_u16(d, j, "code"@) == Some(c.code)
    &&& opt_text(d, j, "type"@) == Some(text_of(c.content_type))
}

/// Reads a content schema.
pub fn parse_content_schema(d: &Document, j: usize) -> (r: Option<ContentSchema>)
    ensures
        r is Some <==> content_ok(*d, j as int),
        r matches Some(c) ==> content_match(*d, j as int, c),
{
    if !mapping_at(d, j) {
        return None;
    }
    let path = read_text(d, j, "path");
    let property = read_text(d, j, "property");
    let message = read_opt_text(d, j, "message");
    let code = read_opt_u16(d, j, "code");
    let content_type = read_opt_text(d, j, "type");
    match (path, property, message, code, content_type) {
        (Some(path), Some(property), Some(message), Some(code), Some(content_type)) =>
            Some(ContentSchema { path, property, message, code, content_type }),
        _ => None,
    }
}

/// Reads a sub-error: a `u16` code and a message.
pub fn parse_sub_error(d: &Document, j: usize) -> (r: Option<SubError>)
    ensures
        r is Some <==> (is_mapping(*d, j as int) && req_u16(*d, j as int, "code"@) is Some
            && req_text(*d, j as int, "message"@) is Some),
        r matches Some(s) ==> req_u16(*d, j as int, "code"@) == Some(s.code)
            && req_text(*d, j as int, "message"@) == Some(s.message@),
{
    if !mapping_at(d, j) {
        return None;
    }
    let code = read_u16(d, j, "code");
    let message = read_text(d, j, "message");
    match (code, message) {
        (Some(code), Some(message)) => Some(SubError { code, message }),
        _ => None,
    }
}

/// Whether the node at `j` reads as a sub-error.
pub open spec fn sub_error_ok(d: Document, j: int) -> bool {
    is_mapping(d, j) && req_u16(d, j, "code"@) is Some && req_text(d, j, "message"@) is Some
}

/// Whether the optional `suberrors` list of the mapping at `i` reads:
/// absent, null, or a list of sub-errors.
pub open spec fn sub_errors_ok(d: Document, i: int) -> bool {
    match field(d, i, "suberrors"@) {
        None => true,
        Some(j) => crate::parse::is_null(d, j as int) || (is_list(d, j as int)
            && forall|k: int| 0 <= k < items(d, j as int).len() ==> sub_error_ok(d, #[trigger] items(d, j as int)[k] as int)),
    }
}

/// Whether `o` holds the optional `suberrors` list of the mapping at `i`,
/// each code and message in order.
pub open spec fn sub_errors_match(d: Document, i: int, o: Option<Vec<SubError>>) -> bool {
    match field(d, i, "suberrors"@) {
        None => o is None,
        Some(j) => if crate::parse::is_null(d, j as int) {
            o is None
        } else {
            &&& o is Some
            &&& o->0@.len() == items(d, j as int).len()
            &&& forall|k: int| 0 <= k < o->0@.len() ==> {
                &&& req_u16(d, items(d, j as int)[k] as int, "code"@) == Some((#[trigger] o->0@[k]).code)
                &&& req_text(d, items(d, j as int)[k] as int, "message"@) == Some(o->0@[k].message@)
            }
        },
    }
}

/// Whether `e` holds every field of the error schema at `j`.
pub open spec fn error_match(d: Document, j: int, e: ErrorSchema) -> bool {
    &&& code_at(d, field(d, j, "code"@)->0 as int) == Some(e.code.text@)
    &&& req_text(d, j, "message"@) == Some(e.message@)
    &&& sub_errors_match(d, j, e.sub_errors)
}

/// Whether the node at `j` reads as an error schema.
pub open spec fn error_ok(d: Document, j: int) -> bool {
    error_head_ok(d, j) && sub_errors_ok(d, j)
}

/// Reads an optional list of sub-errors; absent or null gives `Some(None)`.
pub fn parse_sub_errors(d: &Document, i: usize) -> (r: Option<Option<Vec<SubError>>>)
    ensures
        r is Some <==> sub_errors_ok(*d, i as int),
        r matches Some(o) ==> sub_errors_match(*d, i as int, o),
{
    let j = match get(d, i, "suberrors") {
        None => {
            return Some(None);
        },
        Some(j) => j,
    };
    if j >= d.nodes.len() {
        return None;
    }
    match &d.nodes[j] {
        Node::Null => Some(None),
        Node::List(v) => {
            let mut out: Vec<SubError> = Vec::new();
            let mut k: usize = 0;
            while k < v.len()
                invariant
                    j < d.nodes@.len(),
                    d.nodes@[j as int] == Node::List(*v),
                    k <= v@.len(),
                    out@.len() == k,
                    field(*d, i as int, "suberrors"@) == Some(j),
                    forall|q: int| 0 <= q < k ==> sub_error_ok(*d, #[trigger] items(*d, j as int)[q] as int),
                    forall|q: int| 0 <= q < k ==> {
                        &&& req_u16(*d, items(*d, j as int)[q] as int, "code"@) == Some((#[trigger] out@[q]).code)
                        &&& req_text(*d, items(*d, j as int)[q] as int, "message"@) == Some(out@[q].message@)
                    },
                decreases v@.len() - k,
            {
                assert(items(*d, j as int)[k as int] == v@[k as int]);
                match parse_sub_error(d, v[k]) {
                    Some(s) => out.push(s),
                    None => {
                        return None;
                    },
                }
                k = k + 1;
            }
            Some(Some(out))
        },
        _ => None,
    }
}

/// Reads an error schema; its code is normalised to canonical text.
pub fn parse_error_schema(d: &Document, j: usize) -> (r: Option<ErrorSchema>)
    ensures
        r is Some <==> error_ok(*d, j as int),
        r matches Some(e) ==> error_match(*d, j as int, e),
{
    if !mapping_at(d, j) {
        return None;
    }
    let code = match get(d, j, "code") {
        Some(c) => read_code(d, c),
        None => None,
    };
    let message = read_text(d, j, "message");
    let sub_errors = parse_sub_errors(d, j);
    match (code, message, sub_errors) {
        (Some(code), Some(message), Some(sub_errors)) => Some(ErrorSchema { code, message, sub_errors }),
        _ => None,
    }
}

/// The value index of the first entry from position `k` on that stands
/// under a content key.
pub open spec fn first_content_from(d: Document, es: Seq<(usize, usize)>, k: int) -> Option<usize>
    decreases es.len() - k,
{
    if k < 0 || k >= es.len() {
        None
    } else if key_at(d, es[k].0 as int) is Some && content_key(key_at(d, es[k].0 as int)->0) {
        Some(es[k].1)
    } else {
        first_content_from(d, es, k + 1)
    }
}

/// The value index of the first entry from position `k` on that stands
/// under an error key.
pub open spec fn first_error_from(d: Document, es: Seq<(usize, usize)>, k: int) -> Option<usize>
    decreases es.len() - k,
{
    if k < 0 || k >= es.len() {
        None
    } else if key_at(d, es[k].0 as int) is Some && error_key(key_at(d, es[k].0 as int)->0) {
        Some(es[k].1)
    } else {
        first_error_from(d, es, k + 1)
    }
}

/// The schema of the response mapping at `j`, tried in a fixed order: the
/// entry under a content key, where it reads as a content schema, gives
/// `Some(Some((true, value)))`; else the entry under an error key, where it
/// reads as an error schema, gives `Some(Some((false, value)))`; a response
/// with no schema key gives `Some(None)`; one whose schema entries fit
/// neither variant gives `None`.
pub open spec fn response_schema(d: Document, j: int) -> Option<Option<(bool, usize)>> {
    let c = first_content_from(d, entries(d, j), 0);
    let e = first_error_from(d, entries(d, j), 0);
    if c is Some && content_ok(d, c->0 as int) {
        Some(Some((true, c->0)))
    } else if e is Some && error_ok(d, e->0 as int) {
        Some(Some((false, e->0)))
    } else if c is Some || e is Some {
        None
    } else {
        Some(None)
    }
}

/// Whether the node at `j` reads as a response: a mapping with a description
/// whose schema entries, if any, fit one of the two variants.
pub open spec fn response_reads(d: Document, j: int) -> bool {
    &&& is_mapping(d, j)
    &&& req_text(d, j, "description"@) is Some
    &&& response_schema(d, j) is Some
}

/// Whether a schema is what the slot's value reads as, with every field.
pub open spec fn schema_match(d: Document, slot: (bool, usize), x: ResponseSchema) -> bool {
    match x {
        ResponseSchema::Content { schema } => slot.0 && content_match(d, slot.1 as int, schema),
        ResponseSchema::Error { schema } => !slot.0 && error_match(d, slot.1 as int, schema),
    }
}

/// Whether `r` is what the response at `j` reads as.
pub open spec fn response_match(d: Document, j: int, r: Response) -> bool {
    &&& req_text(d, j, "description"@) == Some(r.description@)
    &&& match response_schema(d, j) {
        Some(None) => r.schemas@.len() == 0,
        Some(Some(slot)) => r.schemas@.len() == 1 && schema_match(d, slot, r.schemas@[0]),
        None => false,
    }
}

/// A response whose schema entries fit neither variant is refused, and with
/// it the definition: the entry under a content key does not read as a
/// content schema, the entry under an error key does not read as an error
/// schema, and at least one of them is there.
pub proof fn lemma_unfit_schema_refuses_response(d: Document, j: int)
    requires
        first_content_from(d, entries(d, j), 0) is Some || first_error_from(d, entries(d, j), 0) is Some,
        !(first_content_from(d, entries(d, j), 0) is Some
            && content_ok(d, first_content_from(d, entries(d, j), 0)->0 as int)),
        !(first_error_from(d, entries(d, j), 0) is Some
            && error_ok(d, first_error_from(d, entries(d, j), 0)->0 as int)),
    ensures
        !response_reads(d, j),
{
}

/// Content is tried before Error: where the entry under a content key reads
/// as a content schema, the response's schema is that content schema,
/// whatever its error entry holds.
pub proof fn lemma_content_first(d: Document, j: int)
    requires
        first_content_from(d, entries(d, j), 0) is Some,
        content_ok(d, first_content_from(d, entries(d, j), 0)->0 as int),
    ensures
        response_schema(d, j) == Some(Some((true, first_content_from(d, entries(d, j), 0)->0))),
{
}

/// The value index of the first entry under a content key.
fn find_content(d: &Document, es: &Vec<(usize, usize)>) -> (r: Option<usize>)
    ensures
        r == first_content_from(*d, es@, 0),
{
    let mut k: usize = 0;
    while k < es.len()
        invariant
            k <= es@.len(),
            first_content_from(*d, es@, k as int) == first_content_from(*d, es@, 0),
        decreases es@.len() - k,
    {
        if is_content_key(d, es[k].0) {
            return Some(es[k].1);
        }
        k = k + 1;
    }
    None
}

/// The value index of the first entry under an error key.
fn find_error(d: &Document, es: &Vec<(usize, usize)>) -> (r: Option<usize>)
    ensures
        r == first_error_from(*d, es@, 0),
{
    let mut k: usize = 0;
    while k < es.len()
        invariant
            k <= es@.len(),
            first_error_from(*d, es@, k as int) == first_error_from(*d, es@, 0),
        decreases es@.len() - k,
    {
        if is_error_key(d, es[k].0) {
            return Some(es[k].1);
        }
        k = k + 1;
    }
    None
}

/// Reads a response: a description and at most one schema, Content tried
/// before Error. Keys that are not schema keys are ignored.
pub fn parse_response(d: &Document, j: usize) -> (r: Option<Response>)
    ensures
        r is Some <==> response_reads(*d, j as int),
        r matches Some(x) ==> response_match(*d, j as int, x),
{
    if j >= d.nodes.len() {
        return None;
    }
    let description = match read_text(d, j, "description") {
        Some(s) => s,
        None => {
            return None;
        },
    };
    let es = match &d.nodes[j] {
        Node::Mapping(es) => es,
        _ => {
            return None;
        },
    };
    let c = find_content(d, es);
    let e = find_error(d, es);
    let mut schemas: Vec<ResponseSchema> = Vec::new();
    if let Some(ci) = c {
        if let Some(schema) = parse_content_schema(d, ci) {
            schemas.push(ResponseSchema::Content { schema });
            return Some(Response { description, schemas });
        }
    }
    if let Some(ei) = e {
        if let Some(schema) = parse_error_schema(d, ei) {
            schemas.push(ResponseSchema::Error { schema });
            return Some(Response { description, schemas });
        }
    }
    if c.is_some() || e.is_some() {
        return None;
    }
    Some(Response { description, schemas })
}

/// Whether the node at `j` reads as a parameter.
pub open spec fn parameter_ok(d: Document, j: int) -> bool {
    is_mapping(d, j) && req_text(d, j, "in"@) is Some && req_text(d, j, "name"@) is Some
        && opt_text(d, j, "description"@) is Some
}

/// Whether the optional `parameters` list of the mapping at `i` reads.
pub open spec fn parameters_ok(d: Document, i: int) -> bool {
    match field(d, i, "parameters"@) {
        None => true,
        Some(j) => crate::parse::is_null(d, j as int) || (is_list(d, j as int)
            && forall|k: int| 0 <= k < items(d, j as int).len() ==> parameter_ok(d, #[trigger] items(d, j as int)[k] as int)),
    }
}

/// Whether the key at index `k` names an extension: its text starts with
/// `x-`. Such entries of paths, path items and responses are skipped.
pub open spec fn extension_key(d: Document, k: int) -> bool {
    key_at(d, k) is Some && key_at(d, k)->0.len() >= 2 && key_at(d, k)->0[0] == 'x' && key_at(d, k)->0[1] == '-'
}

/// The entries among the first `n` whose keys are no extensions, in order.
pub open spec fn kept_entries(d: Document, es: Seq<(usize, usize)>, n: int) -> Seq<(usize, usize)>
    decreases n,
{
    if n <= 0 || n > es.len() {
        Seq::empty()
    } else if extension_key(d, es[n - 1].0 as int) {
        kept_entries(d, es, n - 1)
    } else {
        kept_entries(d, es, n - 1).push(es[n - 1])
    }
}

/// The entries of the mapping at `j` whose keys are no extensions.
pub open spec fn kept(d: Document, j: int) -> Seq<(usize, usize)> {
    kept_entries(d, entries(d, j), entries(d, j).len() as int)
}

/// Whether the key at index `k` names an extension.
fn is_extension(d: &Document, k: usize) -> (r: bool)
    ensures
        r == extension_key(*d, k as int),
{
    if k >= d.nodes.len() {
        return false;
    }
    let t = match &d.nodes[k] {
        Node::Str(s) => s,
        Node::Number(s) => s,
        _ => {
            return false;
        },
    };
    let cs = crate::text::chars_of(t.as_str());
    cs.len() >= 2 && cs[0] == 'x' && cs[1] == '-'
}

/// Whether the optional `responses` mapping of the mapping at `i` reads,
/// extension keys aside, no code repeated:
/// each key a `u16` number, each value a response.
pub open spec fn responses_ok(d: Document, i: int) -> bool {
    match field(d, i, "responses"@) {
        None => true,
        Some(j) => crate::parse::is_null(d, j as int) || (is_mapping(d, j as int)
            && distinct_keys(d, entries(d, j as int))
            && forall|k: int| 0 <= k < entries(d, j as int).len() ==> extension_key(d, (#[trigger] entries(d, j as int)[k]).0 as int)
                || (u16_at(d, entries(d, j as int)[k].0 as int) is Some && response_reads(d, entries(d, j as int)[k].1 as int))),
    }
}

/// Whether the node at `j` reads as a method.
pub open spec fn method_reads(d: Document, j: int) -> bool {
    &&& is_mapping(d, j)
    &&& parameters_ok(d, j)
    &&& opt_text(d, j, "summary"@) is Some
    &&& opt_text(d, j, "description"@) is Some
    &&& responses_ok(d, j)
}

/// Whether the node at `j` is a mapping of string verbs to methods, no verb
/// repeated, extension keys aside.
pub open spec fn verbs_read(d: Document, j: int) -> bool {
    is_mapping(d, j) && distinct_keys(d, entries(d, j)) && forall|k: int| 0 <= k < entries(d, j).len() ==> extension_key(d, (#[trigger] entries(d, j)[k]).0 as int)
        || (str_at(d, entries(d, j)[k].0 as int) is Some && method_reads(d, entries(d, j)[k].1 as int))
}

/// Whether the node at `j` is a mapping of string paths to verb mappings, no
/// path repeated, extension keys aside.
pub open spec fn paths_read(d: Document, j: int) -> bool {
    is_mapping(d, j) && distinct_keys(d, entries(d, j)) && forall|k: int| 0 <= k < entries(d, j).len() ==> extension_key(d, (#[trigger] entries(d, j)[k]).0 as int)
        || (str_at(d, entries(d, j)[k].0 as int) is Some && verbs_read(d, entries(d, j)[k].1 as int))
}

/// Whether the node at `j` is a list of strings.
pub open spec fn strings_ok(d: Document, j: int) -> bool {
    is_list(d, j) && forall|k: int| 0 <= k < items(d, j).len() ==> str_at(d, #[trigger] items(d, j)[k] as int) is Some
}

/// Whether the field `key` of the mapping at `i` is a list of strings.
pub open spec fn strings_field_ok(d: Document, i: int, key: Seq<char>) -> bool {
    field(d, i, key) is Some && strings_ok(d, field(d, i, key)->0 as int)
}

/// Whether the node at `j` reads as API metadata.
pub open spec fn info_ok(d: Document, j: int) -> bool {
    is_mapping(d, j) && req_text(d, j, "version"@) is Some && req_text(d, j, "title"@) is Some
        && req_text(d, j, "description"@) is Some
}

/// Whether the node at `j` reads as an assembly: policies under `execute`
/// and a list under `catch`.
pub open spec fn assembly_reads(d: Document, j: int) -> bool {
    &&& is_mapping(d, j)
    &&& field(d, j, "execute"@) is Some
    &&& list_reads(d, field(d, j, "execute"@)->0 as int, 0)
    &&& field(d, j, "catch"@) is Some
    &&& is_list(d, field(d, j, "catch"@)->0 as int)
}

/// Whether a document reads as a definition.
pub open spec fn definition_reads(d: Document) -> bool {
    let root = d.root as int;
    let info = field(d, root, "info"@);
    let paths = field(d, root, "paths"@);
    let conf = field(d, root, "x-ibm-configuration"@);
    &&& is_mapping(d, root)
    &&& info is Some && info_ok(d, info->0 as int)
    &&& req_text(d, root, "basePath"@) is Some
    &&& req_text(d, root, "swagger"@) is Some
    &&& strings_field_ok(d, root, "consumes"@)
    &&& strings_field_ok(d, root, "produces"@)
    &&& paths is Some && paths_read(d, paths->0 as int)
    &&& conf is Some && field(d, conf->0 as int, "assembly"@) is Some
    &&& assembly_reads(d, field(d, conf->0 as int, "assembly"@)->0 as int)
    &&& strings_field_ok(d, root, "schemes"@)
}

/// Whether `p` holds the fields of the parameter at `j`.
pub open spec fn parameter_match(d: Document, j: int, p: Parameter) -> bool {
    &&& req_text(d, j, "in"@) == Some(p.location@)
    &&& req_text(d, j, "name"@) == Some(p.name@)
    &&& opt_text(d, j, "description"@) == Some(text_of(p.description))
}

/// Whether `o` holds the optional `parameters` list of the mapping at `i`.
pub open spec fn parameters_match(d: Document, i: int, o: Option<Vec<Parameter>>) -> bool {
    match field(d, i, "parameters"@) {
        None => o is None,
        Some(j) => if crate::parse::is_null(d, j as int) {
            o is None
        } else {
            &&& o is Some
            &&& o->0@.len() == items(d, j as int).len()
            &&& forall|k: int| 0 <= k < o->0@.len() ==> parameter_match(d, items(d, j as int)[k] as int, #[trigger] o->0@[k])
        },
    }
}

/// Whether `o` holds the optional `responses` mapping of the mapping at `i`:
/// each status code and response, in order.
pub open spec fn responses_match(d: Document, i: int, o: Option<Vec<(u16, Response)>>) -> bool {
    match field(d, i, "responses"@) {
        None => o is None,
        Some(j) => if crate::parse::is_null(d, j as int) {
            o is None
        } else {
            &&& o is Some
            &&& o->0@.len() == kept(d, j as int).len()
            &&& forall|k: int| 0 <= k < o->0@.len() ==> {
                &&& u16_at(d, kept(d, j as int)[k].0 as int) == Some((#[trigger] o->0@[k]).0)
                &&& response_match(d, kept(d, j as int)[k].1 as int, o->0@[k].1)
            }
        },
    }
}

/// Whether `m` is what the method at `j` reads as.
pub open spec fn method_match(d: Document, j: int, m: Method) -> bool {
    &&& parameters_match(d, j, m.parameters)
    &&& opt_text(d, j, "summary"@) == Some(text_of(m.summary))
    &&& opt_text(d, j, "description"@) == Some(text_of(m.description))
    &&& responses_match(d, j, m.responses)
}

/// Whether `v` holds the verbs and methods of the mapping at `j`, in order.
pub open spec fn verbs_match(d: Document, j: int, v: Seq<(String, Method)>) -> bool {
    &&& v.len() == kept(d, j).len()
    &&& forall|k: int| 0 <= k < v.len() ==> {
        &&& str_at(d, kept(d, j)[k].0 as int) == Some((#[trigger] v[k]).0@)
        &&& method_match(d, kept(d, j)[k].1 as int, v[k].1)
    }
}

/// Whether `v` holds the paths and their verbs of the mapping at `j`, in
/// order.
pub open spec fn paths_match(d: Document, j: int, v: Seq<(String, Vec<(String, Method)>)>) -> bool {
    &&& v.len() == kept(d, j).len()
    &&& forall|k: int| 0 <= k < v.len() ==> {
        &&& str_at(d, kept(d, j)[k].0 as int) == Some((#[trigger] v[k]).0@)
        &&& verbs_match(d, kept(d, j)[k].1 as int, v[k].1@)
    }
}

/// Whether `v` holds the strings of the list at `j`, in order.
pub open spec fn strings_match(d: Document, j: int, v: Seq<String>) -> bool {
    v.len() == items(d, j).len() && forall|k: int| 0 <= k < v.len() ==> str_at(d, items(d, j)[k] as int) == Some((#[trigger] v[k])@)
}

/// Whether `x` is what the document's root reads as: every field of the
/// definition, down to each method, response and policy.
pub open spec fn definition_match(d: Document, x: Definition) -> bool {
    let root = d.root as int;
    let info = field(d, root, "info"@)->0 as int;
    let assembly_at = field(d, field(d, root, "x-ibm-configuration"@)->0 as int, "assembly"@)->0 as int;
    &&& x.document == d
    &&& req_text(d, info, "version"@) == Some(x.info.version@)
    &&& req_text(d, info, "title"@) == Some(x.info.title@)
    &&& req_text(d, info, "description"@) == Some(x.info.description@)
    &&& req_text(d, root, "basePath"@) == Some(x.base_path@)
    &&& req_text(d, root, "swagger"@) == Some(x.swagger@)
    &&& strings_match(d, field(d, root, "consumes"@)->0 as int, x.consumes@)
    &&& strings_match(d, field(d, root, "produces"@)->0 as int, x.produces@)
    &&& strings_match(d, field(d, root, "schemes"@)->0 as int, x.schemes@)
    &&& paths_match(d, field(d, root, "paths"@)->0 as int, x.paths@)
    &&& list_match(d, field(d, assembly_at, "execute"@)->0 as int, x.switch.assembly.policies@, 0)
    &&& x.switch.assembly.catch@ == items(d, field(d, assembly_at, "catch"@)->0 as int)
}

/// Reads a list of strings.
pub fn parse_strings(d: &Document, j: usize) -> (r: Option<Vec<String>>)
    ensures
        match r {
            Some(v) => strings_ok(*d, j as int) && v@.len() == items(*d, j as int).len()
                && forall|k: int| 0 <= k < v@.len() ==> str_at(*d, items(*d, j as int)[k] as int) == Some((#[trigger] v@[k])@),
            None => !strings_ok(*d, j as int),
        },
{
    if j >= d.nodes.len() {
        return None;
    }
    match &d.nodes[j] {
        Node::List(v) => {
            let mut out: Vec<String> = Vec::new();
            let mut k: usize = 0;
            while k < v.len()
                invariant
                    j < d.nodes@.len(),
                    d.nodes@[j as int] == Node::List(*v),
                    k <= v@.len(),
                    out@.len() == k,
                    forall|q: int| 0 <= q < k ==> str_at(*d, items(*d, j as int)[q] as int) == Some((#[trigger] out@[q])@),
                    forall|q: int| 0 <= q < k ==> str_at(*d, #[trigger] items(*d, j as int)[q] as int) is Some,
                decreases v@.len() - k,
            {
                assert(items(*d, j as int)[k as int] == v@[k as int]);
                match string_at(d, v[k]) {
                    Some(s) => out.push(s),
                    None => {
                        return None;
                    },
                }
                k = k + 1;
            }
            Some(out)
        },
        _ => None,
    }
}

/// Reads a required list of strings under `key`.
fn read_strings(d: &Document, i: usize, key: &str) -> (r: Option<Vec<String>>)
    ensures
        r is Some <==> strings_field_ok(*d, i as int, key@),
        r matches Some(v) ==> strings_match(*d, field(*d, i as int, key@)->0 as int, v@),
{
    match get(d, i, key) {
        Some(j) => parse_strings(d, j),
        None => None,
    }
}

/// Reads a parameter.
pub fn parse_parameter(d: &Document, j: usize) -> (r: Option<Parameter>)
    ensures
        r is Some <==> parameter_ok(*d, j as int),
        r matches Some(p) ==> parameter_match(*d, j as int, p),
{
    if !mapping_at(d, j) {
        return None;
    }
    let location = read_text(d, j, "in");
    let name = read_text(d, j, "name");
    let description = read_opt_text(d, j, "description");
    match (location, name, description) {
        (Some(location), Some(name), Some(description)) => Some(Parameter { location, name, description }),
        _ => None,
    }
}

/// Reads an optional list of parameters under `parameters`.
fn parse_parameters(d: &Document, i: usize) -> (r: Option<Option<Vec<Parameter>>>)
    ensures
        r is Some <==> parameters_ok(*d, i as int),
        r matches Some(o) ==> parameters_match(*d, i as int, o),
{
    let j = match get(d, i, "parameters") {
        None => {
            return Some(None);
        },
        Some(j) => j,
    };
    if j >= d.nodes.len() {
        return None;
    }
    match &d.nodes[j] {
        Node::Null => Some(None),
        Node::List(v) => {
            let mut out: Vec<Parameter> = Vec::new();
            let mut k: usize = 0;
            while k < v.len()
                invariant
                    j < d.nodes@.len(),
                    d.nodes@[j as int] == Node::List(*v),
                    k <= v@.len(),
                    out@.len() == k,
                    field(*d, i as int, "parameters"@) == Some(j),
                    forall|q: int| 0 <= q < k ==> parameter_ok(*d, #[trigger] items(*d, j as int)[q] as int),
                    forall|q: int| 0 <= q < k ==> parameter_match(*d, items(*d, j as int)[q] as int, #[trigger] out@[q]),
                decreases v@.len() - k,
            {
                assert(items(*d, j as int)[k as int] == v@[k as int]);
                match parse_parameter(d, v[k]) {
                    Some(p) => out.push(p),
                    None => {
                        return None;
                    },
                }
                k = k + 1;
            }
            Some(Some(out))
        },
        _ => None,
    }
}

/// Reads an optional mapping of status codes to responses under
/// `responses`. Each key is a `u16` number.
fn parse_responses(d: &Document, i: usize) -> (r: Option<Option<Vec<(u16, Response)>>>)
    ensures
        r is Some <==> responses_ok(*d, i as int),
        r matches Some(o) ==> responses_match(*d, i as int, o),
{
    let j = match get(d, i, "responses") {
        None => {
            return Some(None);
        },
        Some(j) => j,
    };
    if j >= d.nodes.len() {
        return None;
    }
    match &d.nodes[j] {
        Node::Null => Some(None),
        Node::Mapping(es) => {
            if !keys_distinct(d, es) {
                return None;
            }
            let mut out: Vec<(u16, Response)> = Vec::new();
            let mut k: usize = 0;
            while k < es.len()
                invariant
                    j < d.nodes@.len(),
                    d.nodes@[j as int] == Node::Mapping(*es),
                    k <= es@.len(),
                    out@.len() == kept_entries(*d, es@, k as int).len(),
                    forall|q: int| 0 <= q < out@.len() ==> u16_at(*d, kept_entries(*d, es@, k as int)[q].0 as int) == Some((#[trigger] out@[q]).0),
                    field(*d, i as int, "responses"@) == Some(j),
                    forall|q: int| 0 <= q < k ==> extension_key(*d, (#[trigger] es@[q]).0 as int) || (u16_at(*d, es@[q].0 as int) is Some
                        && response_reads(*d, es@[q].1 as int)),
                    forall|q: int| 0 <= q < out@.len() ==> response_match(*d, kept_entries(*d, es@, k as int)[q].1 as int, (#[trigger] out@[q]).1),
                decreases es@.len() - k,
            {
                assert(entries(*d, j as int)[k as int] == es@[k as int]);
                if is_extension(d, es[k].0) {
                    k = k + 1;
                    continue;
                }
                let code = match number_at(d, es[k].0) {
                    Some(c) => c,
                    None => {
                        return None;
                    },
                };
                match parse_response(d, es[k].1) {
                    Some(resp) => out.push((code, resp)),
                    None => {
                        return None;
                    },
                }
                k = k + 1;
            }
            Some(Some(out))
        },
        _ => None,
    }
}

/// Reads a method.
pub fn parse_method(d: &Document, j: usize) -> (r: Option<Method>)
    ensures
        r is Some <==> method_reads(*d, j as int),
        r matches Some(m) ==> method_match(*d, j as int, m),
{
    if !mapping_at(d, j) {
        return None;
    }
    let parameters = parse_parameters(d, j);
    let summary = read_opt_text(d, j, "summary");
    let description = read_opt_text(d, j, "description");
    let responses = parse_responses(d, j);
    match (parameters, summary, description, responses) {
        (Some(parameters), Some(summary), Some(description), Some(responses)) =>
            Some(Method { parameters, summary, description, responses }),
        _ => None,
    }
}

/// Reads a mapping of verbs to methods.
fn parse_verbs(d: &Document, j: usize) -> (r: Option<Vec<(String, Method)>>)
    ensures
        r is Some <==> verbs_read(*d, j as int),
        r matches Some(v) ==> verbs_match(*d, j as int, v@),
{
    if j >= d.nodes.len() {
        return None;
    }
    match &d.nodes[j] {
        Node::Mapping(es) => {
            if !keys_distinct(d, es) {
                return None;
            }
            let mut out: Vec<(String, Method)> = Vec::new();
            let mut k: usize = 0;
            while k < es.len()
                invariant
                    j < d.nodes@.len(),
                    d.nodes@[j as int] == Node::Mapping(*es),
                    k <= es@.len(),
                    out@.len() == kept_entries(*d, es@, k as int).len(),
                    forall|q: int| 0 <= q < out@.len() ==> str_at(*d, kept_entries(*d, es@, k as int)[q].0 as int) == Some((#[trigger] out@[q]).0@),
                    forall|q: int| 0 <= q < k ==> extension_key(*d, (#[trigger] es@[q]).0 as int) || (str_at(*d, es@[q].0 as int) is Some
                        && method_reads(*d, es@[q].1 as int)),
                    forall|q: int| 0 <= q < out@.len() ==> method_match(*d, kept_entries(*d, es@, k as int)[q].1 as int, (#[trigger] out@[q]).1),
                decreases es@.len() - k,
            {
                assert(entries(*d, j as int)[k as int] == es@[k as int]);
                if is_extension(d, es[k].0) {
                    k = k + 1;
                    continue;
                }
                let verb = match string_at(d, es[k].0) {
                    Some(s) => s,
                    None => {
                        return None;
                    },
                };
                match parse_method(d, es[k].1) {
                    Some(m) => out.push((verb, m)),
                    None => {
                        return None;
                    },
                }
                k = k + 1;
            }
            Some(out)
        },
        _ => None,
    }
}

/// Reads the mapping of paths to their methods.
fn parse_paths(d: &Document, j: usize) -> (r: Option<Vec<(String, Vec<(String, Method)>)>>)
    ensures
        r is Some <==> paths_read(*d, j as int),
        r matches Some(v) ==> paths_match(*d, j as int, v@),
{
    if j >= d.nodes.len() {
        return None;
    }
    match &d.nodes[j] {
        Node::Mapping(es) => {
            if !keys_distinct(d, es) {
                return None;
            }
            let mut out: Vec<(String, Vec<(String, Method)>)> = Vec::new();
            let mut k: usize = 0;
            while k < es.len()
                invariant
                    j < d.nodes@.len(),
                    d.nodes@[j as int] == Node::Mapping(*es),
                    k <= es@.len(),
                    out@.len() == kept_entries(*d, es@, k as int).len(),
                    forall|q: int| 0 <= q < out@.len() ==> str_at(*d, kept_entries(*d, es@, k as int)[q].0 as int) == Some((#[trigger] out@[q]).0@),
                    forall|q: int| 0 <= q < k ==> extension_key(*d, (#[trigger] es@[q]).0 as int) || (str_at(*d, es@[q].0 as int) is Some
                        && verbs_read(*d, es@[q].1 as int)),
                    forall|q: int| 0 <= q < out@.len() ==> verbs_match(*d, kept_entries(*d, es@, k as int)[q].1 as int, (#[trigger] out@[q]).1@),
                decreases es@.len() - k,
            {
                assert(entries(*d, j as int)[k as int] == es@[k as int]);
                if is_extension(d, es[k].0) {
                    k = k + 1;
                    continue;
                }
                let path = match string_at(d, es[k].0) {
                    Some(s) => s,
                    None => {
                        return None;
                    },
                };
                match parse_verbs(d, es[k].1) {
                    Some(m) => out.push((path, m)),
                    None => {
                        return None;
                    },
                }
                k = k + 1;
            }
            Some(out)
        },
        _ => None,
    }
}

/// Reads the API metadata.
pub fn parse_info(d: &Document, j: usize) -> (r: Option<Info>)
    ensures
        r is Some <==> info_ok(*d, j as int),
        r matches Some(x) ==> req_text(*d, j as int, "version"@) == Some(x.version@)
            && req_text(*d, j as int, "title"@) == Some(x.title@)
            && req_text(*d, j as int, "description"@) == Some(x.description@),
{
    if !mapping_at(d, j) {
        return None;
    }
    let version = read_text(d, j, "version");
    let title = read_text(d, j, "title");
    let description = read_text(d, j, "description");
    match (version, title, description) {
        (Some(version), Some(title), Some(description)) => Some(Info { version, title, description }),
        _ => None,
    }
}

/// Reads an assembly: its policies under `execute` and its raw catch clauses
/// under `catch`.
pub fn parse_assembly(d: &Document, j: usize) -> (r: Option<Assembly>)
    requires
        d.wf(),
    ensures
        r is Some <==> assembly_reads(*d, j as int),
        r matches Some(a) ==> is_mapping(*d, j as int)
            && field(*d, j as int, "execute"@) is Some
            && list_match(*d, field(*d, j as int, "execute"@)->0 as int, a.policies@, 0)
            && field(*d, j as int, "catch"@) is Some
            && is_list(*d, field(*d, j as int, "catch"@)->0 as int)
            && a.catch@ == items(*d, field(*d, j as int, "catch"@)->0 as int),
{
    if !mapping_at(d, j) {
        return None;
    }
    let policies = match get(d, j, "execute") {
        Some(e) => match parse_policies(d, e) {
            Some(p) => p,
            None => {
                return None;
            },
        },
        None => {
            return None;
        },
    };
    let c = match get(d, j, "catch") {
        Some(c) => c,
        None => {
            return None;
        },
    };
    if c >= d.nodes.len() {
        return None;
    }
    match &d.nodes[c] {
        Node::List(v) => Some(Assembly { policies, catch: v.clone() }),
        _ => None,
    }
}

/// Reads a definition from a well-formed document. The error names the
/// top-level field in which the fault lies (`root` where the document is no
/// mapping).
pub fn parse_document(d: Document) -> (r: Result<Definition, String>)
    requires
        d.wf(),
    ensures
        r is Ok <==> definition_reads(d),
        r matches Ok(x) ==> definition_match(d, x),
{
    let root = d.root;
    if !mapping_at(&d, root) {
        return Err("root".to_owned());
    }
    let info = match get(&d, root, "info") {
        Some(i) => parse_info(&d, i),
        None => None,
    };
    let info = match info {
        Some(x) => x,
        None => {
            return Err("info".to_owned());
        },
    };
    let base_path = match read_text(&d, root, "basePath") {
        Some(x) => x,
        None => {
            return Err("basePath".to_owned());
        },
    };
    let swagger = match read_text(&d, root, "swagger") {
        Some(x) => x,
        None => {
            return Err("swagger".to_owned());
        },
    };
    let consumes = match read_strings(&d, root, "consumes") {
        Some(x) => x,
        None => {
            return Err("consumes".to_owned());
        },
    };
    let produces = match read_strings(&d, root, "produces") {
        Some(x) => x,
        None => {
            return Err("produces".to_owned());
        },
    };
    let paths = match get(&d, root, "paths") {
        Some(p) => parse_paths(&d, p),
        None => None,
    };
    let paths = match paths {
        Some(x) => x,
        None => {
            return Err("paths".to_owned());
        },
    };
    let assembly = match get(&d, root, "x-ibm-configuration") {
        Some(x) => match get(&d, x, "assembly") {
            Some(a) => parse_assembly(&d, a),
            None => None,
        },
        None => None,
    };
    let assembly = match assembly {
        Some(x) => x,
        None => {
            return Err("x-ibm-configuration".to_owned());
        },
    };
    let schemes = match read_strings(&d, root, "schemes") {
        Some(x) => x,
        None => {
            return Err("schemes".to_owned());
        },
    };
    Ok(Definition { info, base_path, swagger, consumes, produces, paths, switch: Switch { assembly }, schemes, document: d })
}

/// Parses a definition from its text: `Syntax` where the text is no YAML
/// document, `Structure` where the document does not have the shape of a
/// definition.
pub fn parse_definition(text: &str) -> (r: Result<Definition, ConfigParseError>)
    ensures
        r matches Err(ConfigParseError::Syntax(_)) <==> (yaml_document_of(text@) is None
            || !yaml_document_of(text@)->0.wf()),
        r matches Err(ConfigParseError::Structure(_)) <==> (yaml_document_of(text@) is Some
            && yaml_document_of(text@)->0.wf() && !definition_reads(yaml_document_of(text@)->0)),
        r matches Ok(x) ==> yaml_document_of(text@) == Some(x.document) && definition_match(x.document, x),
{
    match read_yaml(text) {
        Err(e) => Err(ConfigParseError::Syntax(e)),
        Ok(d) => match parse_document(d) {
            Ok(x) => Ok(x),
            Err(field) => Err(ConfigParseError::Structure(field)),
        },
    }
}

/// Whether a text reads as a definition.
pub open spec fn text_reads(t: Seq<char>) -> bool {
    yaml_document_of(t) is Some && yaml_document_of(t)->0.wf() && definition_reads(yaml_document_of(t)->0)
}

/// Parses each text as one definition, in order, all or none: the first text
/// that fails gives its position and its error, and no definition at all.
pub fn parse_all(texts: &Vec<String>) -> (r: Result<Vec<Definition>, (usize, ConfigParseError)>)
    ensures
        r is Ok <==> forall|k: int| 0 <= k < texts@.len() ==> text_reads(#[trigger] texts@[k]@),
        r matches Ok(v) ==> v@.len() == texts@.len() && forall|k: int| 0 <= k < v@.len() ==> {
            &&& yaml_document_of(texts@[k]@) == Some((#[trigger] v@[k]).document)
            &&& definition_match(v@[k].document, v@[k])
        },
        r matches Err((k, e)) ==> {
            &&& k < texts@.len()
            &&& !text_reads(texts@[k as int]@)
            &&& forall|q: int| 0 <= q < k ==> text_reads(#[trigger] texts@[q]@)
            &&& (e matches ConfigParseError::Syntax(_) <==> (yaml_document_of(texts@[k as int]@) is None
                || !yaml_document_of(texts@[k as int]@)->0.wf()))
        },
{
    let mut out: Vec<Definition> = Vec::new();
    let mut k: usize = 0;
    while k < texts.len()
        invariant
            k <= texts@.len(),
            out@.len() == k,
            forall|q: int| 0 <= q < k ==> text_reads(#[trigger] texts@[q]@),
            forall|q: int| 0 <= q < k ==> {
                &&& yaml_document_of(texts@[q]@) == Some((#[trigger] out@[q]).document)
                &&& definition_match(out@[q].document, out@[q])
            },
        decreases texts@.len() - k,
    {
        match parse_definition(texts[k].as_str()) {
            Ok(x) => out.push(x),
            Err(e) => {
                return Err((k, e));
            },
        }
        k = k + 1;
    }
    Ok(out)
}

} // verus!
