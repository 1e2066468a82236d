//! The in-process statement catalog: pre-declared statements keyed by
//! name, each with its text, mode flags, page size, and parameter type
//! tags under `casting`.  The catalog ships empty; entries are declared
//! here when statements are added.

use vstd::prelude::*;
use crate::json::JsonVal;

verus! {

/// The catalog of pre-declared statements.
pub fn get_statements() -> (r: JsonVal)
    ensures
        r is Obj,
        r->Obj_0@.len() == 0,
{
    JsonVal::Obj(Vec::new())
}

} // verus!
