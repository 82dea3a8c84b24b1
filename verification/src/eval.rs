//! Evaluation of source text.
use vstd::prelude::*;

use crate::error::Error;
use crate::parser::tokenize;

verus! {

/// Read a source text.  For now the text is only cut into tokens, and
/// nothing is reported about it.
pub fn eval_source(source: &str) -> (done: Result<(), Error>)
    ensures
        done is Ok,
{
    let _ = tokenize(source);
    Ok(())
}

} // verus!
