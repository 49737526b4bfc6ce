//! The echo service collaborator's compute step.
//!
//! The service's whole obligation is to answer a request with the
//! request's own key as the response value, with no other side effects.
//! Receiving the request and delivering the response are transport work
//! outside the library; the verified part is the answer itself.

use vstd::prelude::*;

use crate::worker::{Request, Response};

verus! {

/// Answers a request by echoing its key: the returned value is exactly
/// the request's key bytes, so the issuing worker's validation accepts it.
pub fn echo_response(req: &Request) -> (resp: Response)
    ensures
        resp.value@ == req.key@,
{
    let mut value: Vec<u8> = Vec::new();
    let mut i: usize = 0;
    while i < req.key.len()
        invariant
            i <= req.key@.len(),
            value@ == req.key@.take(i as int),
        decreases req.key@.len() - i,
    {
        let byte = req.key[i];
        value.push(byte);
        proof {
            assert(req.key@.take(i as int).push(req.key@[i as int]) =~= req.key@.take(
                i as int + 1,
            ));
        }
        i = i + 1;
    }
    proof {
        assert(req.key@.take(req.key@.len() as int) =~= req.key@);
    }
    Response { value }
}

} // verus!
