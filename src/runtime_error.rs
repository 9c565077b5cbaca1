use vstd::prelude::*;

use crate::token::Token;

verus! {

/// An error of evaluation: the operator token at fault and what went wrong.
#[derive(Debug)]
pub struct RuntimeError {
    pub token: Token,
    pub message: String,
}

impl RuntimeError {
    pub fn new(token: Token, message: &str) -> (r: Self)
        ensures
            r.token == token,
            r.message@ == message@,
    {
        RuntimeError { token, message: String::from_str(message) }
    }
}

} // verus!
