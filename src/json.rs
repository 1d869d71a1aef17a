use vstd::prelude::*;

verus! {

/// A generated JSON value.
///
/// A number is carried as the bit pattern of an IEEE-754 double, so that the
/// library never computes with floating point; the caller turns the bits into
/// a number where the value leaves the library.
#[derive(Debug)]
pub enum Json {
    Str(String),
    Int(i64),
    Num(u64),
    Bool(bool),
    Arr(Vec<Json>),
    Obj(Vec<(String, Json)>),
}

} // verus!
