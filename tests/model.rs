use gateway_config::definition::{Definition, Policy, ResponseSchema};
use gateway_config::dispatch::resolve;
use gateway_config::engine::{apply_response_handler, evaluate_condition, step, ExecError, ExecutionContext, Step};
use gateway_config::load::{parse_all, parse_definition, ConfigParseError};
use gateway_config::walk::for_each_policy;
use gateway_config::policy::{If, Operation, OperationSwitch, OperationSwitchCase, ResponseHandler, SetEnvironment};
use gateway_config::text::{canonical_code_text, parse_u16};
use gateway_config::yaml::{read_yaml, Document, Node};

fn document(responses: &str, execute: &str) -> String {
    format!(
        "swagger: '2.0'
info:
  version: 1.0.0
  title: Orders
  description: Order API
basePath: /api
consumes:
  - application/json
produces:
  - application/json
schemes:
  - https
paths:
  /orders:
    get:
      summary: List orders
      parameters:
        - in: query
          name: limit
      responses:
{responses}
x-ibm-configuration:
  assembly:
    execute:
{execute}
    catch: []
"
    )
}

const PLAIN_RESPONSES: &str = "        200:
          description: ok
";

const ORDERS_SWITCH: &str = "      - operation-switch:
          title: route
          case:
            - operations:
                - path: /orders
                  verb: get
              execute:
                - better-invoke:
                    target-url: http://backend/orders
                    timeout: 500
                    verb: get
";

fn parse(responses: &str, execute: &str) -> Result<Definition, ConfigParseError> {
    parse_definition(&document(responses, execute))
}

fn error_code_of(code: &str) -> String {
    let responses = format!(
        "        500:
          description: failure
          x-js-error-content:
            code: {code}
            message: broken
"
    );
    let def = parse(&responses, ORDERS_SWITCH).expect("definition parses");
    let method = &def.paths[0].1[0].1;
    let responses = method.responses.as_ref().expect("responses");
    assert_eq!(responses[0].0, 500);
    match &responses[0].1.schemas[0] {
        ResponseSchema::Error { schema } => schema.code.text.clone(),
        other => panic!("expected an error schema, got {other:?}"),
    }
}

#[test]
fn error_code_forms_normalise_alike() {
    assert_eq!(error_code_of("200"), "200");
    assert_eq!(error_code_of("200.0"), "200");
    assert_eq!(error_code_of("'200'"), "200");
    assert_eq!(error_code_of("'E42'"), "E42");
}

#[test]
fn canonical_code_text_values() {
    assert_eq!(canonical_code_text("0200.00"), "200");
    assert_eq!(canonical_code_text("0"), "0");
    assert_eq!(canonical_code_text("000"), "0");
    assert_eq!(canonical_code_text("200.5"), "200.5");
    assert_eq!(canonical_code_text("-3"), "-3");
    assert_eq!(canonical_code_text(""), "");
}

#[test]
fn parse_u16_limits() {
    assert_eq!(parse_u16(&"65535".to_string()), Some(65535));
    assert_eq!(parse_u16(&"65536".to_string()), None);
    assert_eq!(parse_u16(&"007".to_string()), Some(7));
    assert_eq!(parse_u16(&"".to_string()), None);
    assert_eq!(parse_u16(&"1a".to_string()), None);
}

#[test]
fn unknown_policy_is_kept_whole() {
    let execute = "      - rate-limit:
          per-minute: 10
      - set-environment:
          description: note
";
    let def = parse(PLAIN_RESPONSES, execute).expect("definition parses");
    let policies = &def.switch.assembly.policies;
    assert_eq!(policies.len(), 2);
    match &policies[0] {
        Policy::Other(entries) => {
            assert_eq!(entries.len(), 1);
            assert_eq!(entries[0].0, "rate-limit");
            let value = entries[0].1;
            assert!(matches!(def.document.nodes[value], Node::Mapping(_)));
        },
        other => panic!("expected an unknown policy, got {other:?}"),
    }
    match &policies[1] {
        Policy::SetEnvironment { policy } => assert_eq!(policy.description, "note"),
        other => panic!("expected set-environment, got {other:?}"),
    }
}

#[test]
fn known_key_with_bad_body_falls_back_to_other() {
    let execute = "      - better-invoke:
          verb: get
";
    let def = parse(PLAIN_RESPONSES, execute).expect("definition parses");
    match &def.switch.assembly.policies[0] {
        Policy::Other(entries) => assert_eq!(entries[0].0, "better-invoke"),
        other => panic!("expected an unknown policy, got {other:?}"),
    }
}

fn op(path: &str, verb: &str) -> Operation {
    Operation { path: path.to_string(), verb: verb.to_string() }
}

fn case(ops: Vec<Operation>, note: &str) -> OperationSwitchCase {
    OperationSwitchCase {
        operations: ops,
        execute: vec![Policy::SetEnvironment { policy: SetEnvironment { description: note.to_string() } }],
    }
}

#[test]
fn first_declared_case_wins() {
    let sw = OperationSwitch {
        title: "t".to_string(),
        cases: vec![
            case(vec![op("/a", "post")], "zero"),
            case(vec![op("/orders", "get")], "one"),
            case(vec![op("/orders", "get"), op("/b", "get")], "two"),
        ],
    };
    assert_eq!(resolve(&sw, "/orders", "get"), Some(1));
    assert_eq!(resolve(&sw, "/b", "get"), Some(2));
    assert_eq!(resolve(&sw, "/orders", "GET"), None);
    assert_eq!(resolve(&sw, "/missing", "get"), None);
}

#[test]
fn response_fitting_no_schema_is_refused() {
    let responses = "        200:
          description: ok
          x-js-schema:
            message: no path or property
";
    assert!(matches!(parse(responses, ORDERS_SWITCH).err(), Some(ConfigParseError::Structure(_))));
    let responses = "        200:
          description: ok
          x-error-message:
            message: no code
";
    assert_eq!(parse(responses, ORDERS_SWITCH).err(), Some(ConfigParseError::Structure("paths".to_string())));
}

#[test]
fn content_schema_is_read() {
    let responses = "        200:
          description: ok
          x-js-content:
            path: $.items
            property: items
            code: 200
";
    let def = parse(responses, ORDERS_SWITCH).expect("definition parses");
    let resp = &def.paths[0].1[0].1.responses.as_ref().unwrap()[0].1;
    match &resp.schemas[0] {
        ResponseSchema::Content { schema } => {
            assert_eq!(schema.path, "$.items");
            assert_eq!(schema.property, "items");
            assert_eq!(schema.code, Some(200));
            assert_eq!(schema.message, None);
        },
        other => panic!("expected a content schema, got {other:?}"),
    }
}

#[test]
fn malformed_yaml_is_a_syntax_error() {
    assert!(matches!(parse_definition("a: [1, 2").err(), Some(ConfigParseError::Syntax(_))));
    assert!(read_yaml("a: [1, 2").is_err());
    assert_eq!(parse_definition("just text").err(), Some(ConfigParseError::Structure("root".to_string())));
}

#[test]
fn metadata_is_read() {
    let def = parse(PLAIN_RESPONSES, ORDERS_SWITCH).expect("definition parses");
    assert_eq!(def.info.title, "Orders");
    assert_eq!(def.info.version, "1.0.0");
    assert_eq!(def.base_path, "/api");
    assert_eq!(def.swagger, "2.0");
    assert_eq!(def.consumes, vec!["application/json".to_string()]);
    assert_eq!(def.schemes, vec!["https".to_string()]);
    assert_eq!(def.paths[0].0, "/orders");
    assert_eq!(def.paths[0].1[0].0, "get");
    let method = &def.paths[0].1[0].1;
    assert_eq!(method.summary.as_deref(), Some("List orders"));
    assert_eq!(method.parameters.as_ref().unwrap()[0].location, "query");
    assert!(def.switch.assembly.catch.is_empty());
}

fn fresh_context() -> ExecutionContext {
    ExecutionContext { body: Some("payload".to_string()), headers: vec![], variables: vec![], status: 200, error: None }
}

#[test]
fn orders_get_dispatches_to_one_backend_call() {
    let def = parse(PLAIN_RESPONSES, ORDERS_SWITCH).expect("definition parses");
    let policies = &def.switch.assembly.policies;
    assert_eq!(policies.len(), 1);
    let mut ctx = fresh_context();
    match step(&mut ctx, &policies[0], "/orders", "get") {
        Step::Descend(list) => {
            assert_eq!(list.len(), 1);
            match step(&mut ctx, &list[0], "/orders", "get") {
                Step::Invoke(call) => {
                    assert_eq!(call.target_url, "http://backend/orders");
                    assert_eq!(call.timeout, 500);
                    assert_eq!(call.verb, "get");
                    assert_eq!(call.input_body, None);
                },
                other => panic!("expected a backend call, got {other:?}"),
            }
        },
        other => panic!("expected the case's policies, got {other:?}"),
    }
    match step(&mut ctx, &policies[0], "/orders", "post") {
        Step::Fail(e) => assert_eq!(e, ExecError::NoMatchingCase),
        other => panic!("expected no match, got {other:?}"),
    }
}

fn handler(code: u16, var: &str) -> ResponseHandler {
    ResponseHandler {
        clear_body: Some(true),
        stjs_data_holder: None,
        success_code: Some(code),
        hard_fail: Some(true),
        set_context: Some(vec![("request".to_string(), var.to_string())]),
        set_headers: Some(vec![("x-id".to_string(), var.to_string())]),
        frontend: None,
    }
}

#[test]
fn false_if_leaves_context_unchanged() {
    let node = Policy::If {
        policy: If {
            condition: "false".to_string(),
            execute: vec![Policy::ResponseHandler { policy: handler(201, "x") }],
        },
    };
    let mut ctx = fresh_context();
    assert!(matches!(step(&mut ctx, &node, "/orders", "get"), Step::Continue));
    assert_eq!(ctx.body.as_deref(), Some("payload"));
    assert_eq!(ctx.status, 200);
    assert!(ctx.variables.is_empty());
    assert!(ctx.headers.is_empty());
}

#[test]
fn conditions_evaluate() {
    assert_eq!(evaluate_condition(&"true".to_string()), Ok(true));
    assert_eq!(evaluate_condition(&"false".to_string()), Ok(false));
    assert_eq!(evaluate_condition(&"x > 1".to_string()), Err(ExecError::ConditionEvaluation));
}

#[test]
fn response_handler_applies_in_order() {
    let mut ctx = fresh_context();
    assert_eq!(apply_response_handler(&mut ctx, &handler(201, "a")), Ok(()));
    assert_eq!(ctx.body, None);
    assert_eq!(ctx.status, 201);
    assert_eq!(ctx.variables, vec![("request".to_string(), "a".to_string())]);
    assert_eq!(ctx.headers, vec![("x-id".to_string(), "a".to_string())]);
    ctx.error = Some("backend down".to_string());
    assert_eq!(apply_response_handler(&mut ctx, &handler(202, "b")), Err(ExecError::Propagated("backend down".to_string())));
    assert_eq!(ctx.status, 202);
}

#[test]
fn contexts_of_many_requests_stay_apart() {
    let def = parse(PLAIN_RESPONSES, ORDERS_SWITCH).expect("definition parses");
    let mut contexts: Vec<ExecutionContext> = (0..100).map(|_| fresh_context()).collect();
    for (n, ctx) in contexts.iter_mut().enumerate() {
        let h = Policy::ResponseHandler { policy: handler(200 + n as u16, &n.to_string()) };
        assert!(matches!(step(ctx, &h, "/orders", "get"), Step::Continue));
        assert!(matches!(step(ctx, &def.switch.assembly.policies[0], "/orders", "get"), Step::Descend(_)));
    }
    for (n, ctx) in contexts.iter().enumerate() {
        assert_eq!(ctx.status, 200 + n as u16);
        assert_eq!(ctx.variables.len(), 1);
        assert_eq!(ctx.variables[0].1, n.to_string());
    }
}

#[test]
fn document_check_refuses_forward_members() {
    let good = Document { nodes: vec![Node::Str("a".to_string()), Node::List(vec![0])], root: 1 };
    assert!(good.check());
    let forward = Document { nodes: vec![Node::List(vec![1]), Node::Str("a".to_string())], root: 0 };
    assert!(!forward.check());
    let no_root = Document { nodes: vec![Node::Null], root: 1 };
    assert!(!no_root.check());
}

#[test]
fn nested_if_and_precedence_are_read() {
    let execute = "      - if:
          condition: 'true'
          execute:
            - javascript:
                title: t
                source: ctx.x = 1
            - if:
                condition: 'false'
                execute: []
      - set-environment:
          description: first
        better-invoke:
          target-url: http://b
          timeout: 5
          verb: post
";
    let def = parse(PLAIN_RESPONSES, execute).expect("definition parses");
    let policies = &def.switch.assembly.policies;
    match &policies[0] {
        Policy::If { policy } => {
            assert_eq!(policy.condition, "true");
            assert_eq!(policy.execute.len(), 2);
            match &policy.execute[0] {
                Policy::Javascript { policy } => assert_eq!(policy.source, "ctx.x = 1"),
                other => panic!("expected a script, got {other:?}"),
            }
            assert!(matches!(&policy.execute[1], Policy::If { .. }));
        },
        other => panic!("expected an if, got {other:?}"),
    }
    match &policies[1] {
        Policy::SetEnvironment { policy } => assert_eq!(policy.description, "first"),
        other => panic!("expected set-environment first, got {other:?}"),
    }
}

#[test]
fn non_mapping_policy_is_refused() {
    let execute = "      - just-a-string
";
    assert_eq!(parse(PLAIN_RESPONSES, execute).err(), Some(ConfigParseError::Structure("x-ibm-configuration".to_string())));
}

#[test]
fn content_is_tried_before_error() {
    let responses = "        400:
          description: bad
          x-error-message:
            code: 400.0
            message: bad request
          x-note: ignored
          x-js-type:
            path: $.error
            property: error
";
    let def = parse(responses, ORDERS_SWITCH).expect("definition parses");
    let resp = &def.paths[0].1[0].1.responses.as_ref().unwrap()[0].1;
    assert_eq!(resp.schemas.len(), 1);
    match &resp.schemas[0] {
        ResponseSchema::Content { schema } => {
            assert_eq!(schema.path, "$.error");
            assert_eq!(schema.property, "error");
        },
        other => panic!("expected a content schema, got {other:?}"),
    }
}

#[test]
fn error_schema_used_when_content_does_not_fit() {
    let responses = "        400:
          description: bad
          x-js-schema:
            message: no path
          x-error-message:
            code: 400.0
            message: bad request
            suberrors:
              - code: 1
                message: missing field
";
    let def = parse(responses, ORDERS_SWITCH).expect("definition parses");
    let resp = &def.paths[0].1[0].1.responses.as_ref().unwrap()[0].1;
    assert_eq!(resp.schemas.len(), 1);
    match &resp.schemas[0] {
        ResponseSchema::Error { schema } => {
            assert_eq!(schema.code.text, "400");
            assert_eq!(schema.message, "bad request");
            let subs = schema.sub_errors.as_ref().expect("sub-errors");
            assert_eq!(subs[0].code, 1);
            assert_eq!(subs[0].message, "missing field");
        },
        other => panic!("expected an error schema, got {other:?}"),
    }
}

#[test]
fn response_without_schema_key_has_no_schema() {
    let def = parse(PLAIN_RESPONSES, ORDERS_SWITCH).expect("definition parses");
    let resp = &def.paths[0].1[0].1.responses.as_ref().unwrap()[0].1;
    assert_eq!(resp.description, "ok");
    assert!(resp.schemas.is_empty());
}

#[test]
fn parsed_switch_dispatches_to_first_declared_case() {
    let execute = "      - operation-switch:
          title: t
          case:
            - operations:
                - path: /a
                  verb: get
              execute:
                - set-environment:
                    description: first
            - operations:
                - path: /a
                  verb: get
              execute:
                - set-environment:
                    description: second
";
    let def = parse(PLAIN_RESPONSES, execute).expect("definition parses");
    let mut ctx = fresh_context();
    match step(&mut ctx, &def.switch.assembly.policies[0], "/a", "get") {
        Step::Descend(list) => match &list[0] {
            Policy::SetEnvironment { policy } => assert_eq!(policy.description, "first"),
            other => panic!("expected set-environment, got {other:?}"),
        },
        other => panic!("expected the first case, got {other:?}"),
    }
}

#[test]
fn false_if_stays_typed_between_neighbours() {
    let execute = "      - set-environment:
          description: a
      - if:
          condition: 'false'
          execute:
            - better-invoke:
                target-url: http://b
                timeout: 5
                verb: get
      - set-environment:
          description: b
";
    let def = parse(PLAIN_RESPONSES, execute).expect("definition parses");
    let policies = &def.switch.assembly.policies;
    assert_eq!(policies.len(), 3);
    assert!(matches!(&policies[0], Policy::SetEnvironment { .. }));
    match &policies[1] {
        Policy::If { policy } => {
            assert_eq!(policy.condition, "false");
            assert!(matches!(&policy.execute[0], Policy::BetterInvoke { .. }));
        },
        other => panic!("expected an if, got {other:?}"),
    }
    assert!(matches!(&policies[2], Policy::SetEnvironment { .. }));
    let mut ctx = fresh_context();
    assert!(matches!(step(&mut ctx, &policies[1], "/orders", "get"), Step::Continue));
    assert_eq!(ctx.body.as_deref(), Some("payload"));
}

#[test]
fn extension_field_changes_no_known_field() {
    let plain = parse(PLAIN_RESPONSES, ORDERS_SWITCH).expect("definition parses");
    let text = format!("x-vendor: 1\n{}", document(PLAIN_RESPONSES, ORDERS_SWITCH));
    let extended = parse_definition(&text).expect("definition parses");
    assert_eq!(plain.info.title, extended.info.title);
    assert_eq!(plain.base_path, extended.base_path);
    assert_eq!(plain.consumes, extended.consumes);
    assert_eq!(plain.paths[0].0, extended.paths[0].0);
    assert_eq!(plain.switch.assembly.policies.len(), extended.switch.assembly.policies.len());
}

#[test]
fn extension_keys_in_paths_and_responses_are_skipped() {
    let responses = "        x-ext: 1
        200:
          description: ok
";
    let text = document(responses, ORDERS_SWITCH)
        .replace("paths:\n  /orders:\n    get:", "paths:\n  x-vendor: 1\n  /orders:\n    x-item: true\n    get:");
    let def = parse_definition(&text).expect("definition parses");
    assert_eq!(def.paths.len(), 1);
    assert_eq!(def.paths[0].0, "/orders");
    assert_eq!(def.paths[0].1.len(), 1);
    assert_eq!(def.paths[0].1[0].0, "get");
    let responses = def.paths[0].1[0].1.responses.as_ref().unwrap();
    assert_eq!(responses.len(), 1);
    assert_eq!(responses[0].0, 200);
}

#[test]
fn unquoted_scalars_read_as_text() {
    let text = document(PLAIN_RESPONSES, ORDERS_SWITCH).replace("swagger: '2.0'", "swagger: 2.0");
    let def = parse_definition(&text).expect("definition parses");
    assert_eq!(def.swagger, "2.0");
}

#[test]
fn repeated_key_text_is_refused() {
    let responses = "        200:
          description: ok
        '200':
          description: again
";
    assert_eq!(parse(responses, ORDERS_SWITCH).err(), Some(ConfigParseError::Structure("paths".to_string())));
}

#[test]
fn policies_are_walked_in_preorder() {
    let execute = "      - set-environment:
          description: a
      - if:
          condition: 'true'
          execute:
            - set-environment:
                description: b
      - operation-switch:
          title: t
          case:
            - operations:
                - path: /x
                  verb: get
              execute:
                - set-environment:
                    description: c
      - set-environment:
          description: d
";
    let def = parse(PLAIN_RESPONSES, execute).expect("definition parses");
    let walked = for_each_policy(&def.switch.assembly.policies);
    let names: Vec<String> = walked
        .iter()
        .map(|p| match p {
            Policy::SetEnvironment { policy } => policy.description.clone(),
            Policy::If { .. } => "if".to_string(),
            Policy::OperationSwitch { .. } => "switch".to_string(),
            _ => "other".to_string(),
        })
        .collect();
    assert_eq!(names, vec!["a", "if", "b", "switch", "c", "d"]);
}

#[test]
fn parse_all_is_all_or_nothing() {
    let good = document(PLAIN_RESPONSES, ORDERS_SWITCH);
    let texts = vec![good.clone(), good.clone()];
    assert_eq!(parse_all(&texts).map(|v| v.len()).ok(), Some(2));
    let texts = vec![good.clone(), "a: [1".to_string(), good];
    match parse_all(&texts) {
        Err((k, ConfigParseError::Syntax(_))) => assert_eq!(k, 1),
        other => panic!("expected a syntax error at the second text, got {:?}", other.map(|v| v.len())),
    }
}
