//! Operations as the fuzzer sees them, and the payloads generated for them.
use vstd::prelude::*;
use crate::bytes::{draw_string, fresh_fuzz_input};
use crate::json::Json;
use crate::schema::{conforms, generate, supported, GenError, Schema, MAX_DEPTH};

verus! {

/// The HTTP methods that a path may declare an operation for.
#[derive(Clone, Copy, Debug, PartialEq, Eq, Structural)]
pub enum Method {
    Get,
    Put,
    Post,
    Delete,
    Options,
    Head,
    Patch,
    Trace,
}

impl Method {
    /// The method's name as sent on the wire.
    pub fn as_str(&self) -> &'static str {
        match self {
            Method::Get => "GET",
            Method::Put => "PUT",
            Method::Post => "POST",
            Method::Delete => "DELETE",
            Method::Options => "OPTIONS",
            Method::Head => "HEAD",
            Method::Patch => "PATCH",
            Method::Trace => "TRACE",
        }
    }
}

/// Where a parameter travels in a request.
#[derive(Clone, Copy, Debug, PartialEq, Eq, Structural)]
pub enum Location {
    Query,
    Path,
    Header,
    Cookie,
}

/// A declared parameter of an operation.
#[derive(Clone, Debug)]
pub struct Parameter {
    pub name: String,
    pub location: Location,
}

/// One declared media type of a request body, with its schema node, if any.
#[derive(Clone, Debug)]
pub struct MediaType {
    pub name: String,
    pub schema: Option<usize>,
}

/// One HTTP method on one path: parameters in declared order, an optional
/// request body (its media types in declared order), and the declared status
/// codes of its responses.
#[derive(Clone, Debug)]
pub struct Operation {
    pub parameters: Vec<Parameter>,
    pub request_body: Option<Vec<MediaType>>,
    pub responses: Vec<u16>,
}

/// A path template and the operation declared for each method, if any.
#[derive(Clone, Debug)]
pub struct PathItem {
    pub get: Option<Operation>,
    pub put: Option<Operation>,
    pub post: Option<Operation>,
    pub delete: Option<Operation>,
    pub options: Option<Operation>,
    pub head: Option<Operation>,
    pub patch: Option<Operation>,
    pub trace: Option<Operation>,
}

/// One randomized request instance for one operation.
#[derive(Debug)]
pub struct Payload {
    pub method: Method,
    pub path: String,
    pub query_params: Vec<(String, String)>,
    pub path_params: Vec<(String, String)>,
    pub headers: Vec<(String, String)>,
    pub cookies: Vec<(String, String)>,
    /// Zero or one generated request body.
    pub body: Vec<Json>,
    /// The declared status codes of the operation.
    pub responses: Vec<u16>,
}

/// The names of the parameters at `loc`, in declared order.
pub open spec fn names_at(ps: Seq<Parameter>, loc: Location) -> Seq<Seq<char>>
    decreases ps.len(),
{
    if ps.len() == 0 {
        Seq::empty()
    } else if ps.last().location == loc {
        names_at(ps.drop_last(), loc).push(ps.last().name@)
    } else {
        names_at(ps.drop_last(), loc)
    }
}

/// The names of a list of generated pairs.
pub open spec fn pair_names(v: Seq<(String, String)>) -> Seq<Seq<char>> {
    v.map_values(|p: (String, String)| p.0@)
}

/// The schema of the first declared media type that has one: the one body
/// that a payload carries.
pub open spec fn first_schema(ms: Seq<MediaType>) -> Option<usize>
    decreases ms.len(),
{
    if ms.len() == 0 {
        None
    } else if ms[0].schema is Some {
        ms[0].schema
    } else {
        first_schema(ms.skip(1))
    }
}

/// The schema node of an operation's request body, if it has one.
pub open spec fn body_schema(op: Operation) -> Option<usize> {
    match op.request_body {
        Some(ms) => first_schema(ms@),
        None => None,
    }
}

/// `p` is a payload for `method` on `path` of `op`, its body generated from
/// `schema`.
pub open spec fn payload_for(method: Method, path: Seq<char>, op: Operation, schema: Schema, p: Payload) -> bool {
    &&& p.method == method
    &&& p.path@ == path
    &&& pair_names(p.query_params@) == names_at(op.parameters@, Location::Query)
    &&& pair_names(p.path_params@) == names_at(op.parameters@, Location::Path)
    &&& pair_names(p.headers@) == names_at(op.parameters@, Location::Header)
    &&& pair_names(p.cookies@) == names_at(op.parameters@, Location::Cookie)
    &&& p.responses@ == op.responses@
    &&& match body_schema(op) {
        None => p.body@.len() == 0,
        Some(id) => p.body@.len() == 1 && conforms(schema.nodes@, id as int, MAX_DEPTH as nat, p.body@[0]),
    }
}

/// What preparing a payload owes: a payload for the operation whenever it
/// succeeds; success when the body schema, if any, is supported; and an
/// `Unsupported` failure when the body schema is itself of an unsupported kind.
pub open spec fn prepared(method: Method, path: Seq<char>, op: Operation, schema: Schema, r: Result<Payload, GenError>) -> bool {
    &&& r is Ok ==> payload_for(method, path, op, schema, r->Ok_0)
    &&& body_generable(op, schema) ==> r is Ok
    &&& body_unsupported(op, schema) ==> r == Err::<Payload, GenError>(GenError::Unsupported)
}

/// The operation declares no body schema, or one that generation handles.
pub open spec fn body_generable(op: Operation, schema: Schema) -> bool {
    match body_schema(op) {
        None => true,
        Some(id) => supported(schema.nodes@, id as int, MAX_DEPTH as nat),
    }
}

/// The operation's body schema is itself of a kind that generation refuses.
pub open spec fn body_unsupported(op: Operation, schema: Schema) -> bool {
    match body_schema(op) {
        Some(id) => id < schema.nodes@.len() && schema.nodes@[id as int].is_unsupported(),
        None => false,
    }
}

/// Draws a string value for each parameter and sorts the pairs by location,
/// in declared order; a later parameter of the same name and location is
/// kept beside an earlier one, and the request carries both.
pub fn generate_params(params: &Vec<Parameter>, stream: &mut Vec<u8>) -> (r: (
    Vec<(String, String)>,
    Vec<(String, String)>,
    Vec<(String, String)>,
    Vec<(String, String)>,
))
    ensures
        pair_names(r.0@) == names_at(params@, Location::Query),
        pair_names(r.1@) == names_at(params@, Location::Path),
        pair_names(r.2@) == names_at(params@, Location::Header),
        pair_names(r.3@) == names_at(params@, Location::Cookie),
        final(stream)@.len() <= old(stream)@.len(),
{
    let mut query: Vec<(String, String)> = Vec::new();
    let mut path: Vec<(String, String)> = Vec::new();
    let mut headers: Vec<(String, String)> = Vec::new();
    let mut cookies: Vec<(String, String)> = Vec::new();
    let mut k: usize = 0;
    while k < params.len()
        invariant
            k <= params@.len(),
            pair_names(query@) == names_at(params@.take(k as int), Location::Query),
            pair_names(path@) == names_at(params@.take(k as int), Location::Path),
            pair_names(headers@) == names_at(params@.take(k as int), Location::Header),
            pair_names(cookies@) == names_at(params@.take(k as int), Location::Cookie),
            stream@.len() <= old(stream)@.len(),
        decreases params@.len() - k,
    {
        let p = &params[k];
        let (value, rest) = draw_string(stream);
        *stream = rest;
        let pair = (p.name.clone(), value);
        proof {
            let pre = params@.take(k as int);
            let next = params@.take(k + 1);
            assert(next.drop_last() =~= pre);
            assert(next.last() == params@[k as int]);
        }
        match p.location {
            Location::Query => query.push(pair),
            Location::Path => path.push(pair),
            Location::Header => headers.push(pair),
            Location::Cookie => cookies.push(pair),
        }
        proof {
            assert(pair_names(query@) =~= names_at(params@.take(k + 1), Location::Query));
            assert(pair_names(path@) =~= names_at(params@.take(k + 1), Location::Path));
            assert(pair_names(headers@) =~= names_at(params@.take(k + 1), Location::Header));
            assert(pair_names(cookies@) =~= names_at(params@.take(k + 1), Location::Cookie));
        }
        k = k + 1;
    }
    assert(params@.take(params@.len() as int) =~= params@);
    (query, path, headers, cookies)
}

/// The schema of the first media type that declares one.
pub fn first_body_schema(ms: &Vec<MediaType>) -> (r: Option<usize>)
    ensures
        r == first_schema(ms@),
{
    let mut k: usize = 0;
    assert(ms@.skip(0) =~= ms@);
    while k < ms.len()
        invariant
            k <= ms@.len(),
            first_schema(ms@.skip(k as int)) == first_schema(ms@),
        decreases ms@.len() - k,
    {
        assert(ms@.skip(k as int)[0] == ms@[k as int]);
        assert(ms@.skip(k as int).skip(1) =~= ms@.skip(k + 1));
        if ms[k].schema.is_some() {
            return ms[k].schema;
        }
        k = k + 1;
    }
    None
}

/// A copy of a list of status codes.
fn copy_codes(v: &Vec<u16>) -> (r: Vec<u16>)
    ensures
        r@ == v@,
{
    let mut r: Vec<u16> = Vec::new();
    let mut k: usize = 0;
    while k < v.len()
        invariant
            k <= v@.len(),
            r@ == v@.take(k as int),
        decreases v@.len() - k,
    {
        r.push(v[k]);
        k = k + 1;
        assert(r@ =~= v@.take(k as int));
    }
    assert(v@.take(v@.len() as int) =~= v@);
    r
}

/// Builds a payload for `method` on `path` of `op`, drawing every value from
/// `input`: first the parameters, in declared order, then the body.
pub fn prepare_request(method: Method, path: &String, op: &Operation, schema: &Schema, input: Vec<u8>) -> (r: Result<Payload, GenError>)
    ensures
        prepared(method, path@, *op, *schema, r),
{
    let mut stream = input;
    let (query_params, path_params, headers, cookies) = generate_params(&op.parameters, &mut stream);
    let target = match &op.request_body {
        Some(ms) => first_body_schema(ms),
        None => None,
    };
    let mut body: Vec<Json> = Vec::new();
    match target {
        Some(id) => {
            match generate(schema, id, MAX_DEPTH, &mut stream) {
                Ok(v) => body.push(v),
                Err(e) => {
                    return Err(e);
                },
            }
        },
        None => {},
    }
    let p = Payload {
        method,
        path: path.clone(),
        query_params,
        path_params,
        headers,
        cookies,
        body,
        responses: copy_codes(&op.responses),
    };
    Ok(p)
}

/// The same as `prepare_request`, on a fresh random input.
pub fn prepare_request_fresh(method: Method, path: &String, op: &Operation, schema: &Schema) -> (r: Result<Payload, GenError>)
    ensures
        prepared(method, path@, *op, *schema, r),
{
    prepare_request(method, path, op, schema, fresh_fuzz_input())
}

/// The operation that `item` declares for `m`, if any.
pub open spec fn operation_of(item: PathItem, m: Method) -> Option<Operation> {
    match m {
        Method::Get => item.get,
        Method::Put => item.put,
        Method::Post => item.post,
        Method::Delete => item.delete,
        Method::Options => item.options,
        Method::Head => item.head,
        Method::Patch => item.patch,
        Method::Trace => item.trace,
    }
}

/// `m` alone where `item` declares an operation for it, else nothing.
pub open spec fn once(item: PathItem, m: Method) -> Seq<Method> {
    if operation_of(item, m) is Some {
        seq![m]
    } else {
        Seq::empty()
    }
}

/// The methods that `item` declares, in the order GET, PUT, POST, DELETE,
/// OPTIONS, HEAD, PATCH, TRACE.
pub open spec fn declared_methods(item: PathItem) -> Seq<Method> {
    once(item, Method::Get) + once(item, Method::Put) + once(item, Method::Post) + once(item, Method::Delete)
        + once(item, Method::Options) + once(item, Method::Head) + once(item, Method::Patch)
        + once(item, Method::Trace)
}

/// The methods of a list of outcomes.
pub open spec fn outcome_methods(v: Seq<(Method, Result<Payload, GenError>)>) -> Seq<Method> {
    v.map_values(|o: (Method, Result<Payload, GenError>)| o.0)
}

/// Each outcome belongs to an operation that `item` declares, and is what
/// preparing a payload for it owes.
pub open spec fn outcomes_for(item: PathItem, path: Seq<char>, schema: Schema, v: Seq<(Method, Result<Payload, GenError>)>) -> bool {
    forall|i: int|
        0 <= i < v.len() ==> {
            &&& operation_of(item, (#[trigger] v[i]).0) is Some
            &&& prepared(v[i].0, path, operation_of(item, v[i].0)->Some_0, schema, v[i].1)
        }
}

impl PathItem {
    /// The operation declared for `m`, if any.
    pub fn operation(&self, m: Method) -> (r: Option<&Operation>)
        ensures
            r == match operation_of(*self, m) {
                Some(op) => Some(&op),
                None => None::<&Operation>,
            },
    {
        match m {
            Method::Get => self.get.as_ref(),
            Method::Put => self.put.as_ref(),
            Method::Post => self.post.as_ref(),
            Method::Delete => self.delete.as_ref(),
            Method::Options => self.options.as_ref(),
            Method::Head => self.head.as_ref(),
            Method::Patch => self.patch.as_ref(),
            Method::Trace => self.trace.as_ref(),
        }
    }
}

/// Prepares a payload for `m` on `item` when it declares an operation there,
/// on a fresh random input, and appends the outcome to `out`.
fn add_operation(
    out: &mut Vec<(Method, Result<Payload, GenError>)>,
    m: Method,
    path: &String,
    item: &PathItem,
    schema: &Schema,
)
    ensures
        outcome_methods(final(out)@) == outcome_methods(old(out)@) + once(*item, m),
        outcomes_for(*item, path@, *schema, old(out)@) ==> outcomes_for(*item, path@, *schema, final(out)@),
{
    match item.operation(m) {
        Some(op) => {
            let r = prepare_request_fresh(m, path, op, schema);
            out.push((m, r));
            assert(outcome_methods(out@) =~= outcome_methods(old(out)@) + once(*item, m));
        },
        None => {
            assert(outcome_methods(out@) =~= outcome_methods(old(out)@) + once(*item, m));
        },
    }
}

/// One payload outcome for each operation that `item` declares, in method
/// order, each on its own fresh random input. An operation whose body cannot
/// be generated fails alone: the others are prepared all the same.
pub fn create_fuzz_payload(path: &String, item: &PathItem, schema: &Schema) -> (r: Vec<(Method, Result<Payload, GenError>)>)
    ensures
        outcome_methods(r@) == declared_methods(*item),
        outcomes_for(*item, path@, *schema, r@),
{
    let mut out: Vec<(Method, Result<Payload, GenError>)> = Vec::new();
    assert(outcome_methods(out@) =~= Seq::empty());
    add_operation(&mut out, Method::Get, path, item, schema);
    add_operation(&mut out, Method::Put, path, item, schema);
    add_operation(&mut out, Method::Post, path, item, schema);
    add_operation(&mut out, Method::Delete, path, item, schema);
    add_operation(&mut out, Method::Options, path, item, schema);
    add_operation(&mut out, Method::Head, path, item, schema);
    add_operation(&mut out, Method::Patch, path, item, schema);
    add_operation(&mut out, Method::Trace, path, item, schema);
    assert(outcome_methods(out@) =~= declared_methods(*item));
    out
}

/// Within one pass over a path, an operation whose body schema is of an
/// unsupported kind fails with `Unsupported`, and that failure stays with it:
/// every other operation whose body can be generated still gets its payload.
pub proof fn lemma_unsupported_body_is_scoped(
    item: PathItem,
    path: Seq<char>,
    schema: Schema,
    v: Seq<(Method, Result<Payload, GenError>)>,
    i: int,
    j: int,
)
    requires
        outcomes_for(item, path, schema, v),
        0 <= i < v.len(),
        0 <= j < v.len(),
        body_unsupported(operation_of(item, v[i].0)->Some_0, schema),
        body_generable(operation_of(item, v[j].0)->Some_0, schema),
    ensures
        v[i].1 == Err::<Payload, GenError>(GenError::Unsupported),
        v[j].1 is Ok,
        payload_for(v[j].0, path, operation_of(item, v[j].0)->Some_0, schema, v[j].1->Ok_0),
{
    assert(outcomes_for(item, path, schema, v));
    assert(operation_of(item, v[i].0) is Some);
    assert(operation_of(item, v[j].0) is Some);
}

} // verus!
