//! The registered-path surface: validation of the batch envelope and of
//! each item, ahead of planning by id against the registry.

use vstd::prelude::*;
use crate::json::{JsonVal, spec_obj_get};
use crate::errors::ErrorBody;
use crate::coerce::{SpecFail, fail_view};

verus! {

/// A 400-class failure whose three text fields all read the tag.
pub open spec fn fail400(tag: Seq<char>) -> SpecFail {
    SpecFail { status: 400, message: tag, error_message: tag, custom_error_message: tag }
}

/// Build the 400-class error object for a validation failure.
pub(crate) fn erfn400(tag: &str) -> (r: ErrorBody)
    ensures
        fail_view(r) == fail400(tag@),
{
    ErrorBody {
        status_code: 400,
        message: tag.to_owned(),
        error_message: tag.to_owned(),
        custom_error_message: tag.to_owned(),
    }
}

/// What envelope validation answers: the body must carry an `operation`
/// member, and that member must be an array.
pub open spec fn spec_check_input_data(oj: JsonVal) -> Result<(), SpecFail> {
    let b = spec_obj_get(oj->Obj_0@, "body"@)->Some_0;
    match spec_obj_get(b->Obj_0@, "operation"@) {
        None => Err(fail400("no_operation_in_request"@)),
        Some(op) => if !(op is Arr) {
            Err(fail400("operation_must_be_an_array"@))
        } else {
            Ok(())
        },
    }
}

/// Validate the batch envelope.
pub fn check_input_data(oj: &JsonVal) -> (r: Result<(), ErrorBody>)
    requires
        *oj is Obj,
        (spec_obj_get(oj->Obj_0@, "body"@) matches Some(b) && b is Obj),
    ensures
        (match r {
            Ok(_) => spec_check_input_data(*oj) is Ok,
            Err(e) => spec_check_input_data(*oj) == Err::<(), SpecFail>(fail_view(e)),
        }),
{
    let body = match oj.get("body") {
        Some(b) => b,
        None => {
            proof {
                assert(false);
            }
            return Ok(());
        },
    };
    match body.get("operation") {
        None => Err(erfn400("no_operation_in_request")),
        Some(op) => {
            if !op.is_array() {
                Err(erfn400("operation_must_be_an_array"))
            } else {
                Ok(())
            }
        },
    }
}

/// What item validation answers on this route: `query_data`,
/// `statement_id` and `paging` must be present, then an array, a string
/// and a string in turn; the first violation names itself.
pub open spec fn spec_check_input_data_single_line(oj: JsonVal) -> Result<(), SpecFail> {
    let m = oj->Obj_0@;
    if spec_obj_get(m, "query_data"@) is None {
        Err(fail400("no_query_data_in_request"@))
    } else if spec_obj_get(m, "statement_id"@) is None {
        Err(fail400("no_statement_id_in_request"@))
    } else if spec_obj_get(m, "paging"@) is None {
        Err(fail400("no_paging_in_request"@))
    } else if !(spec_obj_get(m, "query_data"@)->Some_0 is Arr) {
        Err(fail400("query_data_must_be_an_array"@))
    } else if !(spec_obj_get(m, "statement_id"@)->Some_0 is Str) {
        Err(fail400("statement_id_must_be_a_string"@))
    } else if !(spec_obj_get(m, "paging"@)->Some_0 is Str) {
        Err(fail400("paging_must_be_a_string"@))
    } else {
        Ok(())
    }
}

/// Validate one item of the batch.
pub fn check_input_data_single_line(oj: &JsonVal) -> (r: Result<(), ErrorBody>)
    requires
        *oj is Obj,
    ensures
        (match r {
            Ok(_) => spec_check_input_data_single_line(*oj) is Ok,
            Err(e) => spec_check_input_data_single_line(*oj) == Err::<(), SpecFail>(fail_view(e)),
        }),
{
    if !oj.has_key("query_data") {
        return Err(erfn400("no_query_data_in_request"));
    }
    if !oj.has_key("statement_id") {
        return Err(erfn400("no_statement_id_in_request"));
    }
    if !oj.has_key("paging") {
        return Err(erfn400("no_paging_in_request"));
    }
    let query_data = match oj.get("query_data") {
        Some(v) => v,
        None => {
            proof {
                assert(false);
            }
            return Ok(());
        },
    };
    if !query_data.is_array() {
        return Err(erfn400("query_data_must_be_an_array"));
    }
    let statement_id = match oj.get("statement_id") {
        Some(v) => v,
        None => {
            proof {
                assert(false);
            }
            return Ok(());
        },
    };
    if !statement_id.is_string() {
        return Err(erfn400("statement_id_must_be_a_string"));
    }
    let paging = match oj.get("paging") {
        Some(v) => v,
        None => {
            proof {
                assert(false);
            }
            return Ok(());
        },
    };
    if !paging.is_string() {
        return Err(erfn400("paging_must_be_a_string"));
    }
    Ok(())
}

} // verus!
