//! The ad-hoc surface: validation of the batch envelope and of each raw
//! item, ahead of planning the raw command.  The `statement` and
//! `per_page_results` violations answer with the registered route's tags
//! for the fields they stand in for, as the wire has always shown them;
//! the `statement_id` violations name themselves.

use vstd::prelude::*;
use crate::json::{JsonVal, spec_obj_get};
use crate::errors::ErrorBody;
use crate::coerce::{SpecFail, fail_view};
use crate::execute_statement::{fail400, erfn400};

verus! {

/// A JSON number of any of the three storings.
pub open spec fn is_json_number(v: JsonVal) -> bool {
    v is Int || v is Uint || v is Float
}

/// What envelope validation answers: the body must carry an `operation`
/// member, and that member must be an array.
pub open spec fn spec_check_input_data(oj: JsonVal) -> Result<(), SpecFail> {
    let b = spec_obj_get(oj->Obj_0@, "body"@)->Some_0;
    match spec_obj_get(b->Obj_0@, "operation"@) {
        None => Err(fail400("no_operation_in_request"@)),
        Some(op) => if !(op is Arr) {
            Err(fail400("operation_must_be_an_array"@))
        } else {
            Ok(())
        },
    }
}

/// Validate the batch envelope.
pub fn check_input_data(oj: &JsonVal) -> (r: Result<(), ErrorBody>)
    requires
        *oj is Obj,
        (spec_obj_get(oj->Obj_0@, "body"@) matches Some(b) && b is Obj),
    ensures
        (match r {
            Ok(_) => spec_check_input_data(*oj) is Ok,
            Err(e) => spec_check_input_data(*oj) == Err::<(), SpecFail>(fail_view(e)),
        }),
{
    let body = match oj.get("body") {
        Some(b) => b,
        None => {
            proof {
                assert(false);
            }
            return Ok(());
        },
    };
    match body.get("operation") {
        None => Err(erfn400("no_operation_in_request")),
        Some(op) => {
            if !op.is_array() {
                Err(erfn400("operation_must_be_an_array"))
            } else {
                Ok(())
            }
        },
    }
}

/// What item validation answers on this route: `statement`,
/// `per_page_results`, `paging` and `statement_id` must be present, then
/// a string, a string, a number and a string in turn; the first
/// violation names itself, `statement` and `per_page_results` under the
/// tags of the registered-route fields they stand in for.
pub open spec fn spec_check_input_data_single_line(oj: JsonVal) -> Result<(), SpecFail> {
    let m = oj->Obj_0@;
    if spec_obj_get(m, "statement"@) is None {
        Err(fail400("no_query_data_in_request"@))
    } else if spec_obj_get(m, "per_page_results"@) is None {
        Err(fail400("no_statement_id_in_request"@))
    } else if spec_obj_get(m, "paging"@) is None {
        Err(fail400("no_paging_in_request"@))
    } else if spec_obj_get(m, "statement_id"@) is None {
        Err(fail400("no_statement_id_in_request"@))
    } else if !(spec_obj_get(m, "statement"@)->Some_0 is Str) {
        Err(fail400("query_data_must_be_an_array"@))
    } else if !(spec_obj_get(m, "statement_id"@)->Some_0 is Str) {
        Err(fail400("statement_id_must_be_a_string"@))
    } else if !is_json_number(spec_obj_get(m, "per_page_results"@)->Some_0) {
        Err(fail400("statement_id_must_be_a_string"@))
    } else if !(spec_obj_get(m, "paging"@)->Some_0 is Str) {
        Err(fail400("paging_must_be_a_string"@))
    } else {
        Ok(())
    }
}

/// Validate one item of the batch.
pub fn check_input_data_single_line(oj: &JsonVal) -> (r: Result<(), ErrorBody>)
    requires
        *oj is Obj,
    ensures
        (match r {
            Ok(_) => spec_check_input_data_single_line(*oj) is Ok,
            Err(e) => spec_check_input_data_single_line(*oj) == Err::<(), SpecFail>(fail_view(e)),
        }),
{
    if !oj.has_key("statement") {
        return Err(erfn400("no_query_data_in_request"));
    }
    if !oj.has_key("per_page_results") {
        return Err(erfn400("no_statement_id_in_request"));
    }
    if !oj.has_key("paging") {
        return Err(erfn400("no_paging_in_request"));
    }
    if !oj.has_key("statement_id") {
        return Err(erfn400("no_statement_id_in_request"));
    }
    let statement = match oj.get("statement") {
        Some(v) => v,
        None => {
            proof {
                assert(false);
            }
            return Ok(());
        },
    };
    if !statement.is_string() {
        return Err(erfn400("query_data_must_be_an_array"));
    }
    let statement_id = match oj.get("statement_id") {
        Some(v) => v,
        None => {
            proof {
                assert(false);
            }
            return Ok(());
        },
    };
    if !statement_id.is_string() {
        return Err(erfn400("statement_id_must_be_a_string"));
    }
    let per_page = match oj.get("per_page_results") {
        Some(v) => v,
        None => {
            proof {
                assert(false);
            }
            return Ok(());
        },
    };
    if !per_page.is_number() {
        return Err(erfn400("statement_id_must_be_a_string"));
    }
    let paging = match oj.get("paging") {
        Some(v) => v,
        None => {
            proof {
                assert(false);
            }
            return Ok(());
        },
    };
    if !paging.is_string() {
        return Err(erfn400("paging_must_be_a_string"));
    }
    Ok(())
}

} // verus!
