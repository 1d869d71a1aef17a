use openapi_fuzzer::bytes::fresh_fuzz_input;
use openapi_fuzzer::fuzz::{plan_pass, FuzzLoop, WorkItem};
use openapi_fuzzer::json::Json;
use openapi_fuzzer::payload::{
    create_fuzz_payload, prepare_request, Location, MediaType, Method, Operation, Parameter, PathItem,
};
use openapi_fuzzer::request::{build_request, cookie_header, substitute_path, BuildError};
use openapi_fuzzer::schema::{generate, GenError, Schema, SchemaNode, MAX_DEPTH};
use openapi_fuzzer::validate::check_response;

fn pair(a: &str, b: &str) -> (String, String) {
    (a.to_string(), b.to_string())
}

fn op(params: Vec<Parameter>, body: Option<usize>, codes: Vec<u16>) -> Operation {
    Operation {
        parameters: params,
        request_body: body.map(|id| vec![MediaType { name: "application/json".to_string(), schema: Some(id) }]),
        responses: codes,
    }
}

fn item_with(get: Option<Operation>, post: Option<Operation>) -> PathItem {
    PathItem { get, put: None, post, delete: None, options: None, head: None, patch: None, trace: None }
}

fn param(name: &str, location: Location) -> Parameter {
    Parameter { name: name.to_string(), location }
}

#[test]
fn array_length_within_bounds() {
    let schema = Schema {
        nodes: vec![SchemaNode::Array { items: 1, min_items: Some(2), max_items: Some(5) }, SchemaNode::Integer],
    };
    for _ in 0..200 {
        let mut input = fresh_fuzz_input();
        match generate(&schema, 0, MAX_DEPTH, &mut input) {
            Ok(Json::Arr(v)) => {
                assert!(v.len() >= 2 && v.len() <= 5);
                assert!(v.iter().all(|e| matches!(e, Json::Int(_))));
            }
            other => panic!("unexpected {:?}", other),
        }
    }
}

#[test]
fn array_length_defaults() {
    let schema = Schema {
        nodes: vec![SchemaNode::Array { items: 1, min_items: None, max_items: None }, SchemaNode::Boolean],
    };
    for _ in 0..200 {
        let mut input = fresh_fuzz_input();
        match generate(&schema, 0, MAX_DEPTH, &mut input) {
            Ok(Json::Arr(v)) => assert!(v.len() >= 1 && v.len() <= 10),
            other => panic!("unexpected {:?}", other),
        }
    }
}

#[test]
fn array_with_fixed_length() {
    let schema = Schema {
        nodes: vec![SchemaNode::Array { items: 1, min_items: Some(3), max_items: Some(3) }, SchemaNode::Str],
    };
    let mut input = vec![7u8, 9, 11];
    match generate(&schema, 0, MAX_DEPTH, &mut input) {
        Ok(Json::Arr(v)) => assert_eq!(v.len(), 3),
        other => panic!("unexpected {:?}", other),
    }
}

#[test]
fn object_keys_exact() {
    let schema = Schema {
        nodes: vec![
            SchemaNode::Object {
                properties: vec![("id".to_string(), 1), ("name".to_string(), 2), ("tags".to_string(), 3)],
            },
            SchemaNode::Integer,
            SchemaNode::Str,
            SchemaNode::Array { items: 2, min_items: Some(0), max_items: Some(2) },
        ],
    };
    for _ in 0..50 {
        let mut input = fresh_fuzz_input();
        match generate(&schema, 0, MAX_DEPTH, &mut input) {
            Ok(Json::Obj(entries)) => {
                let keys: Vec<&str> = entries.iter().map(|e| e.0.as_str()).collect();
                assert_eq!(keys, vec!["id", "name", "tags"]);
                assert!(matches!(entries[0].1, Json::Int(_)));
                assert!(matches!(entries[1].1, Json::Str(_)));
                assert!(matches!(entries[2].1, Json::Arr(_)));
            }
            other => panic!("unexpected {:?}", other),
        }
    }
}

#[test]
fn empty_object_has_no_keys() {
    let schema = Schema { nodes: vec![SchemaNode::Object { properties: vec![] }] };
    let mut input = vec![1u8, 2, 3];
    match generate(&schema, 0, MAX_DEPTH, &mut input) {
        Ok(Json::Obj(entries)) => assert!(entries.is_empty()),
        other => panic!("unexpected {:?}", other),
    }
}

#[test]
fn integer_reads_little_endian() {
    let schema = Schema { nodes: vec![SchemaNode::Integer] };
    let mut input = vec![1u8, 2, 0, 0, 0, 0, 0, 0, 99];
    match generate(&schema, 0, MAX_DEPTH, &mut input) {
        Ok(Json::Int(v)) => assert_eq!(v, 0x0201),
        other => panic!("unexpected {:?}", other),
    }
    assert_eq!(input, vec![99u8]);
}

#[test]
fn integer_negative_and_padded() {
    let schema = Schema { nodes: vec![SchemaNode::Integer] };
    let mut input = vec![0xffu8; 8];
    match generate(&schema, 0, MAX_DEPTH, &mut input) {
        Ok(Json::Int(v)) => assert_eq!(v, -1),
        other => panic!("unexpected {:?}", other),
    }
    let mut short = vec![5u8];
    match generate(&schema, 0, MAX_DEPTH, &mut short) {
        Ok(Json::Int(v)) => assert_eq!(v, 5),
        other => panic!("unexpected {:?}", other),
    }
    assert!(short.is_empty());
}

#[test]
fn number_carries_bits() {
    let schema = Schema { nodes: vec![SchemaNode::Number] };
    let bits = 1.5f64.to_bits();
    let mut input = bits.to_le_bytes().to_vec();
    match generate(&schema, 0, MAX_DEPTH, &mut input) {
        Ok(Json::Num(b)) => assert_eq!(f64::from_bits(b), 1.5),
        other => panic!("unexpected {:?}", other),
    }
}

#[test]
fn boolean_reads_low_bit() {
    let schema = Schema { nodes: vec![SchemaNode::Boolean] };
    let mut input = vec![3u8, 4];
    assert!(matches!(generate(&schema, 0, MAX_DEPTH, &mut input), Ok(Json::Bool(true))));
    assert!(matches!(generate(&schema, 0, MAX_DEPTH, &mut input), Ok(Json::Bool(false))));
    assert!(matches!(generate(&schema, 0, MAX_DEPTH, &mut input), Ok(Json::Bool(false))));
}

#[test]
fn string_takes_length_from_end() {
    let schema = Schema { nodes: vec![SchemaNode::Str] };
    let mut input = vec![b'h', b'i', 2u8];
    match generate(&schema, 0, MAX_DEPTH, &mut input) {
        Ok(Json::Str(s)) => assert_eq!(s, "hi"),
        other => panic!("unexpected {:?}", other),
    }
    assert!(input.is_empty());
}

#[test]
fn unsupported_kinds_fail() {
    for node in [SchemaNode::OneOf, SchemaNode::AnyOf, SchemaNode::AllOf, SchemaNode::Any] {
        let schema = Schema { nodes: vec![node] };
        let mut input = vec![1u8, 2, 3];
        assert!(matches!(generate(&schema, 0, MAX_DEPTH, &mut input), Err(GenError::Unsupported)));
    }
}

#[test]
fn self_reference_is_bounded() {
    let schema = Schema {
        nodes: vec![SchemaNode::Array { items: 0, min_items: Some(1), max_items: Some(1) }],
    };
    let mut input = fresh_fuzz_input();
    assert!(matches!(generate(&schema, 0, MAX_DEPTH, &mut input), Err(GenError::TooDeep)));
    let mut input = vec![1u8];
    assert!(matches!(generate(&schema, 0, 0, &mut input), Err(GenError::TooDeep)));
}

#[test]
fn missing_node_and_empty_range() {
    let schema = Schema {
        nodes: vec![
            SchemaNode::Array { items: 1, min_items: Some(4), max_items: Some(2) },
            SchemaNode::Object { properties: vec![("x".to_string(), 7)] },
        ],
    };
    let mut input = vec![1u8, 2, 3];
    assert!(matches!(generate(&schema, 0, MAX_DEPTH, &mut input), Err(GenError::EmptyLengthRange)));
    assert!(matches!(generate(&schema, 1, MAX_DEPTH, &mut input), Err(GenError::MissingNode)));
    assert!(matches!(generate(&schema, 5, MAX_DEPTH, &mut input), Err(GenError::MissingNode)));
}

#[test]
fn path_substitution_exact() {
    let template = "/pets/{id}/{owner}".to_string();
    let params = vec![pair("id", "42"), pair("owner", "ann")];
    assert_eq!(substitute_path(&template, &params), Ok("/pets/42/ann".to_string()));
}

#[test]
fn path_substitution_repeated_and_first_wins() {
    let template = "/a/{x}/b/{x}".to_string();
    let params = vec![pair("x", "1"), pair("x", "2")];
    assert_eq!(substitute_path(&template, &params), Ok("/a/1/b/1".to_string()));
}

#[test]
fn path_substitution_unresolved() {
    let template = "/pets/{id}".to_string();
    assert_eq!(substitute_path(&template, &vec![pair("other", "1")]), Err(BuildError::UnresolvedPlaceholder));
}

#[test]
fn path_substitution_keeps_unclosed_brace_and_inserts_values_verbatim() {
    let template = "/a{b".to_string();
    assert_eq!(substitute_path(&template, &vec![]), Ok("/a{b".to_string()));
    let template = "/{v}".to_string();
    assert_eq!(substitute_path(&template, &vec![pair("v", "{w}")]), Ok("/{w}".to_string()));
}

#[test]
fn cookie_header_joins_pairs() {
    assert_eq!(cookie_header(&vec![pair("a", "1"), pair("b", "2")]), "a=1; b=2");
    assert_eq!(cookie_header(&vec![]), "");
}

#[test]
fn response_validation() {
    let declared = vec![200u16, 404];
    let m = check_response(&declared, 500, "oops".to_string()).expect("anomaly");
    assert_eq!(m.status, 500);
    assert!(m.status.to_string().contains("500"));
    assert_eq!(m.body, "oops");
    assert!(check_response(&declared, 200, String::new()).is_none());
    assert!(check_response(&declared, 404, String::new()).is_none());
    assert!(check_response(&vec![], 200, String::new()).is_some());
}

#[test]
fn no_body_declared() {
    let schema = Schema { nodes: vec![] };
    let operation = op(vec![param("q", Location::Query)], None, vec![200]);
    let payload = prepare_request(Method::Get, &"/items".to_string(), &operation, &schema, fresh_fuzz_input())
        .expect("payload");
    assert!(payload.body.is_empty());
    let req = build_request(&"http://localhost:8080".to_string(), payload).expect("request");
    assert!(req.body.is_none());
}

#[test]
fn payload_parameters_by_location() {
    let schema = Schema { nodes: vec![SchemaNode::Str] };
    let operation = op(
        vec![
            param("q", Location::Query),
            param("id", Location::Path),
            param("X-Key", Location::Header),
            param("q", Location::Query),
            param("session", Location::Cookie),
        ],
        Some(0),
        vec![200, 201],
    );
    let path = "/items/{id}".to_string();
    let payload = prepare_request(Method::Post, &path, &operation, &schema, fresh_fuzz_input()).expect("payload");
    let names = |v: &Vec<(String, String)>| v.iter().map(|p| p.0.clone()).collect::<Vec<_>>();
    assert_eq!(names(&payload.query_params), vec!["q", "q"]);
    assert_eq!(names(&payload.path_params), vec!["id"]);
    assert_eq!(names(&payload.headers), vec!["X-Key"]);
    assert_eq!(names(&payload.cookies), vec!["session"]);
    assert_eq!(payload.body.len(), 1);
    assert_eq!(payload.responses, vec![200, 201]);
    assert_eq!(payload.method, Method::Post);
    assert_eq!(payload.path, path);
}

#[test]
fn first_media_type_with_schema_is_used() {
    let schema = Schema { nodes: vec![SchemaNode::Integer, SchemaNode::OneOf] };
    let operation = Operation {
        parameters: vec![],
        request_body: Some(vec![
            MediaType { name: "text/plain".to_string(), schema: None },
            MediaType { name: "application/json".to_string(), schema: Some(0) },
            MediaType { name: "application/xml".to_string(), schema: Some(1) },
        ]),
        responses: vec![200],
    };
    let payload = prepare_request(Method::Put, &"/x".to_string(), &operation, &schema, vec![1u8, 0, 0, 0, 0, 0, 0, 0])
        .expect("payload");
    assert_eq!(payload.body.len(), 1);
    assert!(matches!(payload.body[0], Json::Int(1)));
}

#[test]
fn build_request_assembles_everything() {
    let schema = Schema { nodes: vec![SchemaNode::Boolean] };
    let operation = op(
        vec![param("id", Location::Path), param("a", Location::Cookie), param("b", Location::Cookie)],
        Some(0),
        vec![200],
    );
    let mut payload =
        prepare_request(Method::Delete, &"/pets/{id}".to_string(), &operation, &schema, vec![1u8]).expect("payload");
    payload.path_params[0].1 = "42".to_string();
    payload.query_params = vec![pair("t", "1"), pair("t", "2")];
    payload.headers = vec![pair("X-A", "v")];
    payload.cookies = vec![pair("a", "1"), pair("b", "2")];
    let req = build_request(&"http://example.com/api".to_string(), payload).expect("request");
    assert_eq!(req.method, Method::Delete);
    assert_eq!(req.method.as_str(), "DELETE");
    assert_eq!(req.url, "http://example.com/api/pets/42");
    assert_eq!(req.query, vec![pair("t", "1"), pair("t", "2")]);
    assert_eq!(req.headers, vec![pair("X-A", "v"), pair("Cookie", "a=1; b=2")]);
    assert!(matches!(req.body, Some(Json::Bool(false))));
}

#[test]
fn build_request_errors() {
    let schema = Schema { nodes: vec![] };
    let operation = op(vec![], None, vec![200]);
    let payload = prepare_request(Method::Get, &"/pets/{id}".to_string(), &operation, &schema, vec![]).expect("payload");
    assert!(matches!(build_request(&"http://example.com".to_string(), payload), Err(BuildError::UnresolvedPlaceholder)));
    let payload = prepare_request(Method::Get, &"/pets".to_string(), &operation, &schema, vec![]).expect("payload");
    assert!(matches!(build_request(&"not a url".to_string(), payload), Err(BuildError::BadUrl)));
    let payload = prepare_request(Method::Get, &"/pets".to_string(), &operation, &schema, vec![]).expect("payload");
    let req = build_request(&"http://example.com/".to_string(), payload).expect("request");
    assert_eq!(req.url, "http://example.com/pets");
}

#[test]
fn unsupported_body_is_scoped_to_its_operation() {
    let schema = Schema { nodes: vec![SchemaNode::OneOf, SchemaNode::Str] };
    let item = item_with(Some(op(vec![], Some(0), vec![200])), Some(op(vec![], Some(1), vec![201])));
    let outcomes = create_fuzz_payload(&"/things".to_string(), &item, &schema);
    assert_eq!(outcomes.len(), 2);
    assert_eq!(outcomes[0].0, Method::Get);
    assert!(matches!(outcomes[0].1, Err(GenError::Unsupported)));
    assert_eq!(outcomes[1].0, Method::Post);
    let p = outcomes[1].1.as_ref().expect("payload");
    assert_eq!(p.body.len(), 1);
    assert!(matches!(p.body[0], Json::Str(_)));
}

#[test]
fn plan_follows_method_order() {
    let all = PathItem {
        get: Some(op(vec![], None, vec![])),
        put: None,
        post: Some(op(vec![], None, vec![])),
        delete: None,
        options: None,
        head: Some(op(vec![], None, vec![])),
        patch: None,
        trace: Some(op(vec![], None, vec![])),
    };
    let doc = vec![("/a".to_string(), all), ("/b".to_string(), item_with(None, None)), ("/c".to_string(), item_with(None, Some(op(vec![], None, vec![]))))];
    let plan = plan_pass(&doc);
    let expected = vec![
        WorkItem { path_index: 0, method: Method::Get },
        WorkItem { path_index: 0, method: Method::Post },
        WorkItem { path_index: 0, method: Method::Head },
        WorkItem { path_index: 0, method: Method::Trace },
        WorkItem { path_index: 2, method: Method::Post },
    ];
    assert_eq!(plan, expected);
}

#[test]
fn one_pass_against_a_stub_records_one_anomaly() {
    let schema = Schema { nodes: vec![] };
    let doc = vec![("/health".to_string(), item_with(Some(op(vec![], None, vec![200])), None))];
    let mut run = FuzzLoop::new(&doc, 1);
    let mut sent = 0;
    while let Some(w) = run.next(false) {
        let (path, item) = &doc[w.path_index];
        let operation = item.operation(w.method).expect("declared");
        let payload = prepare_request(w.method, path, operation, &schema, fresh_fuzz_input()).expect("payload");
        let req = build_request(&"http://stub.invalid".to_string(), payload).expect("request");
        assert_eq!(req.url, "http://stub.invalid/health");
        sent += 1;
        run.record_response(path, w.method, &operation.responses, 503, "unavailable".to_string());
    }
    assert_eq!(sent, 1);
    assert_eq!(run.anomalies.len(), 1);
    assert_eq!(run.anomalies[0].path, "/health");
    assert_eq!(run.anomalies[0].method, Method::Get);
    assert_eq!(run.anomalies[0].method.as_str(), "GET");
    assert_eq!(run.anomalies[0].status, 503);
    assert!(run.stopped);
}

#[test]
fn loop_repeats_passes_and_counts() {
    let doc = vec![("/x".to_string(), item_with(Some(op(vec![], None, vec![200])), Some(op(vec![], None, vec![201]))))];
    let mut run = FuzzLoop::new(&doc, 3);
    let mut seen = Vec::new();
    while let Some(w) = run.next(false) {
        seen.push(w.method);
        run.record_response(&"/x".to_string(), w.method, &vec![200], 200, String::new());
    }
    assert_eq!(seen, vec![Method::Get, Method::Post, Method::Get, Method::Post, Method::Get, Method::Post]);
    assert_eq!(run.passes_done, 3);
    assert_eq!(run.ok_count, 6);
    assert!(run.anomalies.is_empty());
    run.record_failure();
    assert_eq!(run.failures, 1);
}

#[test]
fn loop_stops_on_cancel_and_on_empty_work() {
    let doc = vec![("/x".to_string(), item_with(Some(op(vec![], None, vec![200])), None))];
    let mut run = FuzzLoop::new(&doc, u64::MAX);
    assert!(run.next(false).is_some());
    assert!(run.next(true).is_none());
    assert!(run.stopped);
    assert!(run.next(false).is_none());

    let empty: Vec<(String, PathItem)> = vec![("/y".to_string(), item_with(None, None))];
    let mut idle = FuzzLoop::new(&empty, u64::MAX);
    assert!(idle.next(false).is_none());
    assert!(idle.stopped);

    let mut none = FuzzLoop::new(&doc, 0);
    assert!(none.stopped);
    assert!(none.next(false).is_none());
}

#[test]
fn fresh_input_is_alphanumeric() {
    let a = fresh_fuzz_input();
    assert_eq!(a.len(), 1024);
    assert!(a.iter().all(|b| b.is_ascii_alphanumeric()));
}
