//! Messages of the greeter service.

use vstd::prelude::*;

verus! {

/// The request of a greeting: the name of whom to greet.
#[derive(Debug)]
pub struct HelloRequest {
    pub name: String,
}

/// The answer to a greeting request.
#[derive(Debug)]
pub struct HelloReply {
    pub message: String,
}

} // verus!
