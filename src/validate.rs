//! Comparison of a response's status with the declared status codes.
use vstd::prelude::*;

verus! {

/// Whether `status` is one of the declared codes.
pub fn is_declared(declared: &Vec<u16>, status: u16) -> (r: bool)
    ensures
        r == declared@.contains(status),
{
    let mut i: usize = 0;
    while i < declared.len()
        invariant
            i <= declared@.len(),
            forall|q: int| 0 <= q < i ==> declared@[q] != status,
        decreases declared@.len() - i,
    {
        if declared[i] == status {
            assert(declared@[i as int] == status);
            return true;
        }
        i = i + 1;
    }
    false
}

/// A response whose status code the operation did not declare.
#[derive(Debug)]
pub struct Mismatch {
    pub status: u16,
    pub body: String,
}

/// Checks a response against the declared status codes: a mismatch,
/// carrying the status and the body, exactly when the status is not declared.
pub fn check_response(declared: &Vec<u16>, status: u16, body: String) -> (r: Option<Mismatch>)
    ensures
        r is Some <==> !declared@.contains(status),
        r is Some ==> r->Some_0.status == status && r->Some_0.body == body,
{
    if is_declared(declared, status) {
        None
    } else {
        Some(Mismatch { status, body })
    }
}

} // verus!
