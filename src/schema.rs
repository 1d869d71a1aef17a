//! Schemas as an arena of nodes addressed by index, and the generator that
//! turns a node into a JSON value.
use vstd::prelude::*;
use crate::bytes::{
    arbitrary_string, consumed, draw_bool, draw_i64, draw_in_range, draw_string, draw_u64,
    le_value, signed64,
};
use crate::json::Json;

verus! {

/// One node of a schema. Children are named by their index in the arena, so
/// a schema may refer to itself.
#[derive(Clone, Debug)]
pub enum SchemaNode {
    Str,
    Number,
    Integer,
    Boolean,
    /// Declared properties, in declared order: name and node index.
    Object { properties: Vec<(String, usize)> },
    Array { items: usize, min_items: Option<usize>, max_items: Option<usize> },
    OneOf,
    AnyOf,
    AllOf,
    Any,
}

/// A schema arena: the nodes that schema indices refer to.
#[derive(Clone, Debug)]
pub struct Schema {
    pub nodes: Vec<SchemaNode>,
}

/// Why generation of a value failed.
#[derive(Clone, Copy, Debug, PartialEq, Eq, Structural)]
pub enum GenError {
    /// A composite kind (`oneOf`, `anyOf`, `allOf`, or an untyped schema)
    /// that generation does not handle.
    Unsupported,
    /// The depth budget ran out, as on a schema that refers to itself.
    TooDeep,
    /// A node index outside the arena.
    MissingNode,
    /// An array whose minimum length exceeds its maximum.
    EmptyLengthRange,
}

/// The depth budget of one generation: nesting deeper than this fails.
pub const MAX_DEPTH: usize = 32;

/// The least length of an array: its `min_items`, 1 when absent.
pub open spec fn min_len(m: Option<usize>) -> nat {
    match m {
        Some(v) => v as nat,
        None => 1,
    }
}

/// The greatest length of an array: its `max_items`, 10 when absent.
pub open spec fn max_len(m: Option<usize>) -> nat {
    match m {
        Some(v) => v as nat,
        None => 10,
    }
}

impl SchemaNode {
    /// A kind that generation refuses.
    pub open spec fn is_unsupported(&self) -> bool {
        ||| self is OneOf
        ||| self is AnyOf
        ||| self is AllOf
        ||| self is Any
    }
}

/// `j` has the shape that node `id` describes, nested at most `fuel` deep:
/// the matching primitive, an object with exactly the declared keys in
/// declared order, an array whose length lies within its bounds.
pub open spec fn conforms(nodes: Seq<SchemaNode>, id: int, fuel: nat, j: Json) -> bool
    decreases fuel,
{
    if fuel == 0 || id < 0 || id >= nodes.len() {
        false
    } else {
        match nodes[id] {
            SchemaNode::Str => j is Str,
            SchemaNode::Number => j is Num,
            SchemaNode::Integer => j is Int,
            SchemaNode::Boolean => j is Bool,
            SchemaNode::Object { properties } => match j {
                Json::Obj(entries) => {
                    &&& entries@.len() == properties@.len()
                    &&& forall|k: int|
                        0 <= k < entries@.len() ==> {
                            &&& (#[trigger] entries@[k]).0@ == properties@[k].0@
                            &&& conforms(nodes, properties@[k].1 as int, (fuel - 1) as nat, entries@[k].1)
                        }
                },
                _ => false,
            },
            SchemaNode::Array { items, min_items, max_items } => match j {
                Json::Arr(elems) => {
                    &&& min_len(min_items) <= elems@.len() <= max_len(max_items)
                    &&& forall|k: int|
                        0 <= k < elems@.len() ==> conforms(nodes, items as int, (fuel - 1) as nat, #[trigger] elems@[k])
                },
                _ => false,
            },
            _ => false,
        }
    }
}

/// Every node reachable from `id` within `fuel` levels exists and has a kind
/// that generation handles, and every array there has a non-empty length range.
pub open spec fn supported(nodes: Seq<SchemaNode>, id: int, fuel: nat) -> bool
    decreases fuel,
{
    if fuel == 0 || id < 0 || id >= nodes.len() {
        false
    } else {
        match nodes[id] {
            SchemaNode::Object { properties } => forall|k: int|
                0 <= k < properties@.len() ==> supported(nodes, (#[trigger] properties@[k]).1 as int, (fuel - 1) as nat),
            SchemaNode::Array { items, min_items, max_items } => {
                &&& min_len(min_items) <= max_len(max_items)
                &&& supported(nodes, items as int, (fuel - 1) as nat)
            },
            n => !n.is_unsupported(),
        }
    }
}

/// What a primitive node yields from `bytes`, where it is one.
pub open spec fn primitive_value(n: SchemaNode, bytes: Seq<u8>, j: Json) -> bool {
    match n {
        SchemaNode::Str => j is Str && j->Str_0@ == arbitrary_string(bytes).0,
        SchemaNode::Integer => j is Int && j->Int_0 as int == signed64(
            le_value(bytes.take(consumed(bytes.len(), 8) as int)),
        ),
        SchemaNode::Number => j is Num && j->Num_0 as nat == le_value(
            bytes.take(consumed(bytes.len(), 8) as int),
        ),
        SchemaNode::Boolean => j is Bool && j->Bool_0 == (bytes.len() > 0 && bytes[0] % 2 == 1),
        _ => true,
    }
}

/// Generates a value for node `id` of `schema`, nesting at most `fuel` deep,
/// drawing from `stream` and leaving in it the bytes not consumed.
pub fn generate(schema: &Schema, id: usize, fuel: usize, stream: &mut Vec<u8>) -> (r: Result<
    Json,
    GenError,
>)
    ensures
        r is Ok ==> conforms(schema.nodes@, id as int, fuel as nat, r->Ok_0),
        r is Ok ==> primitive_value(schema.nodes@[id as int], old(stream)@, r->Ok_0),
        supported(schema.nodes@, id as int, fuel as nat) ==> r is Ok,
        fuel == 0 ==> r == Err::<Json, GenError>(GenError::TooDeep),
        fuel > 0 && id >= schema.nodes@.len() ==> r == Err::<Json, GenError>(GenError::MissingNode),
        fuel > 0 && id < schema.nodes@.len() && schema.nodes@[id as int].is_unsupported() ==> r
            == Err::<Json, GenError>(GenError::Unsupported),
        final(stream)@.len() <= old(stream)@.len(),
    decreases fuel,
{
    if fuel == 0 {
        return Err(GenError::TooDeep);
    }
    if id >= schema.nodes.len() {
        return Err(GenError::MissingNode);
    }
    match &schema.nodes[id] {
        SchemaNode::Str => {
            let (v, rest) = draw_string(stream);
            *stream = rest;
            Ok(Json::Str(v))
        },
        SchemaNode::Number => {
            let (v, rest) = draw_u64(stream);
            *stream = rest;
            Ok(Json::Num(v))
        },
        SchemaNode::Integer => {
            let (v, rest) = draw_i64(stream);
            *stream = rest;
            Ok(Json::Int(v))
        },
        SchemaNode::Boolean => {
            let (v, rest) = draw_bool(stream);
            *stream = rest;
            Ok(Json::Bool(v))
        },
        SchemaNode::Object { properties } => {
            let ghost nodes = schema.nodes@;
            let mut entries: Vec<(String, Json)> = Vec::new();
            let mut k: usize = 0;
            while k < properties.len()
                invariant
                    nodes == schema.nodes@,
                    0 < fuel,
                    0 <= id < nodes.len(),
                    nodes[id as int] == (SchemaNode::Object { properties: *properties }),
                    k <= properties@.len(),
                    entries@.len() == k,
                    forall|q: int|
                        0 <= q < k ==> {
                            &&& (#[trigger] entries@[q]).0@ == properties@[q].0@
                            &&& conforms(nodes, properties@[q].1 as int, (fuel - 1) as nat, entries@[q].1)
                        },
                    supported(nodes, id as int, fuel as nat) ==> forall|q: int|
                        0 <= q < properties@.len() ==> supported(nodes, (#[trigger] properties@[q]).1 as int, (fuel - 1) as nat),
                    stream@.len() <= old(stream)@.len(),
                decreases properties@.len() - k,
            {
                let child = generate(schema, properties[k].1, fuel - 1, stream);
                match child {
                    Ok(v) => {
                        entries.push((properties[k].0.clone(), v));
                    },
                    Err(e) => {
                        return Err(e);
                    },
                }
                k = k + 1;
            }
            let r = Json::Obj(entries);
            assert(conforms(nodes, id as int, fuel as nat, r));
            Ok(r)
        },
        SchemaNode::Array { items, min_items, max_items } => {
            let lo: usize = match min_items {
                Some(v) => *v,
                None => 1,
            };
            let hi: usize = match max_items {
                Some(v) => *v,
                None => 10,
            };
            if lo > hi {
                return Err(GenError::EmptyLengthRange);
            }
            let (len, rest) = draw_in_range(stream, lo, hi);
            *stream = rest;
            let ghost nodes = schema.nodes@;
            let mut elems: Vec<Json> = Vec::new();
            let mut k: usize = 0;
            while k < len
                invariant
                    nodes == schema.nodes@,
                    0 < fuel,
                    0 <= id < nodes.len(),
                    nodes[id as int] == (SchemaNode::Array {
                        items: *items,
                        min_items: *min_items,
                        max_items: *max_items,
                    }),
                    lo as nat == min_len(*min_items),
                    hi as nat == max_len(*max_items),
                    lo <= len <= hi,
                    supported(nodes, id as int, fuel as nat) ==> supported(nodes, *items as int, (fuel - 1) as nat),
                    k <= len,
                    elems@.len() == k,
                    forall|q: int|
                        0 <= q < k ==> conforms(nodes, *items as int, (fuel - 1) as nat, #[trigger] elems@[q]),
                    stream@.len() <= old(stream)@.len(),
                decreases len - k,
            {
                match generate(schema, *items, fuel - 1, stream) {
                    Ok(v) => {
                        elems.push(v);
                    },
                    Err(e) => {
                        return Err(e);
                    },
                }
                k = k + 1;
            }
            let r = Json::Arr(elems);
            assert(conforms(nodes, id as int, fuel as nat, r));
            Ok(r)
        },
        _ => Err(GenError::Unsupported),
    }
}

/// Every generated array's length lies within the array's bounds, inclusive:
/// a value that conforms to an array node has between `min_items` (default 1)
/// and `max_items` (default 10) elements.
pub proof fn lemma_array_length_in_bounds(nodes: Seq<SchemaNode>, id: int, fuel: nat, j: Json)
    requires
        conforms(nodes, id, fuel, j),
        0 <= id < nodes.len(),
        nodes[id] is Array,
    ensures
        j is Arr,
        min_len(nodes[id]->min_items) <= j->Arr_0@.len() <= max_len(nodes[id]->max_items),
{
}

/// Every generated object's key set is exactly the declared property name
/// set: no key is missing and none is added.
pub proof fn lemma_object_keys_exact(nodes: Seq<SchemaNode>, id: int, fuel: nat, j: Json)
    requires
        conforms(nodes, id, fuel, j),
        0 <= id < nodes.len(),
        nodes[id] is Object,
    ensures
        j is Obj,
        j->Obj_0@.map_values(|e: (String, Json)| e.0@).to_set()
            == nodes[id]->properties@.map_values(|p: (String, usize)| p.0@).to_set(),
{
    let entries = j->Obj_0@;
    let props = nodes[id]->properties@;
    let ks = entries.map_values(|e: (String, Json)| e.0@);
    let ps = props.map_values(|p: (String, usize)| p.0@);
    assert(ks.len() == ps.len());
    assert forall|k: int| 0 <= k < ks.len() implies ks[k] == ps[k] by {
        assert(entries[k].0@ == props[k].0@);
    }
    assert(ks =~= ps);
}

} // verus!
