//! Random payloads for the sender.

use rand::rngs::ThreadRng;
use rand::Rng;
use vstd::prelude::*;

verus! {

#[verifier::external_type_specification]
#[verifier::external_body]
pub struct ExThreadRng(ThreadRng);

/// Calls `rand::thread_rng`, the handle to this thread's generator.
/// Nothing is claimed of the handle. That function panics when the
/// operating system cannot seed the generator, which no argument decides.
#[verifier::external_body]
fn thread_rng() -> ThreadRng {
    rand::thread_rng()
}

/// Calls `Rng::gen::<u8>` on `rng`: a byte drawn uniformly at random, so any
/// byte may come back and nothing is claimed of it.
#[verifier::external_body]
fn random_byte(rng: &mut ThreadRng) -> u8 {
    rng.gen::<u8>()
}

/// A payload of `size` bytes drawn at random.
pub fn generate_payload(size: usize) -> (payload: Vec<u8>)
    ensures
        payload.len() == size,
{
    let mut rng = thread_rng();
    let mut payload: Vec<u8> = Vec::with_capacity(size);
    let mut i: usize = 0;
    while i < size
        invariant
            i <= size,
            payload.len() == i,
        decreases size - i,
    {
        payload.push(random_byte(&mut rng));
        i = i + 1;
    }
    payload
}

} // verus!
