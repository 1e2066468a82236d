//! The dispatcher's planning half: given a validated request item, pick
//! the execution variant, bind the coerced parameters, and hand the
//! session one command to run.  The session itself lives outside this
//! crate; it takes a command and answers with rows and a continuation
//! token, which `common` marshals.

use vstd::prelude::*;
use vstd::string::StringExecFns;
use crate::json::JsonVal;
use crate::errors::ErrorBody;
use crate::coerce::{
    CqlParam,
    SpecParam,
    SpecFail,
    spec_coerce,
    cast_json_value_to_scylla_value,
    fail_view,
};
use crate::registry::{Registry, StatementDescriptor, spec_find};
use crate::render::{render_spec, render_json};
use crate::paging::{b64_decode, b64_decode_spec};

verus! {

/// One command for the session: execute a prepared handle, or run raw
/// CQL, each with bound parameters and an optional continuation token.
#[derive(Debug, PartialEq)]
pub enum DbCommand {
    ExecutePrepared { handle: usize, params: Vec<CqlParam>, paging: Option<Vec<u8>> },
    RunRaw {
        statement: String,
        page_size: Option<i32>,
        params: Vec<CqlParam>,
        paging: Option<Vec<u8>>,
    },
}

/// The mathematical shadow of `DbCommand`.
pub enum SpecCommand {
    ExecutePrepared { handle: int, params: Seq<SpecParam>, paging: Option<Seq<u8>> },
    RunRaw {
        statement: Seq<char>,
        page_size: Option<i32>,
        params: Seq<SpecParam>,
        paging: Option<Seq<u8>>,
    },
}

impl View for DbCommand {
    type V = SpecCommand;

    open spec fn view(&self) -> SpecCommand {
        match *self {
            DbCommand::ExecutePrepared { handle, params, paging } => SpecCommand::ExecutePrepared {
                handle: handle as int,
                params: params@.map_values(|p: CqlParam| p@),
                paging: match paging {
                    Some(b) => Some(b@),
                    None => None::<Seq<u8>>,
                },
            },
            DbCommand::RunRaw { statement, page_size, params, paging } => SpecCommand::RunRaw {
                statement: statement@,
                page_size,
                params: params@.map_values(|p: CqlParam| p@),
                paging: match paging {
                    Some(b) => Some(b@),
                    None => None::<Seq<u8>>,
                },
            },
        }
    }
}

/// A planned item: the command to run, and whether its answer carries
/// rows to marshal or is discarded as a mutation's.
#[derive(Debug, PartialEq)]
pub struct ItemPlan {
    pub is_query: bool,
    pub command: DbCommand,
}

/// The mathematical shadow of `ItemPlan`.
pub struct SpecPlan {
    pub is_query: bool,
    pub command: SpecCommand,
}

/// The abstraction of a planned item.
pub open spec fn plan_view(plan: ItemPlan) -> SpecPlan {
    SpecPlan { is_query: plan.is_query, command: plan.command@ }
}

/// The context line a coercion failure carries: the statement id, the
/// offending value's rendering, and the expected tag.
pub open spec fn spec_logging_line(id: Seq<char>, v: JsonVal, tag: Seq<char>) -> Seq<char> {
    "statement: "@ + id + " - value: "@ + render_spec(v) + " - casting: "@ + tag
}

/// Build the context line for one parameter.
fn logging_line(id: &str, v: &JsonVal, tag: &str) -> (r: String)
    ensures
        r@ == spec_logging_line(id@, *v, tag@),
{
    let mut out: String = "statement: ".to_owned();
    out.append(id);
    out.append(" - value: ");
    let rendered = render_json(v);
    out.append(rendered.as_str());
    out.append(" - casting: ");
    out.append(tag);
    out
}

/// Coercing a parameter list, in index order, each under its declared
/// tag: the typed parameters, or the first failure.
pub open spec fn spec_coerce_params(
    data: Seq<JsonVal>,
    types: Seq<String>,
    id: Seq<char>,
    j: int,
) -> Result<Seq<SpecParam>, SpecFail>
    decreases data.len() - j,
{
    if j < 0 || j >= data.len() {
        Ok(Seq::<SpecParam>::empty())
    } else {
        let tag = types[j]@;
        match spec_coerce(data[j], tag, spec_logging_line(id, data[j], tag)) {
            Ok(p) => match spec_coerce_params(data, types, id, j + 1) {
                Ok(rest) => Ok(seq![p] + rest),
                Err(f) => Err(f),
            },
            Err(f) => Err(f),
        }
    }
}

/// Coerce a request item's parameter list against the declared tags.
#[verifier::loop_isolation(false)]
pub fn coerce_query_data(id: &str, query_data: &Vec<JsonVal>, types: &Vec<String>) -> (r: Result<
    Vec<CqlParam>,
    ErrorBody,
>)
    requires
        query_data@.len() <= types@.len(),
    ensures
        (match r {
            Ok(ps) => spec_coerce_params(query_data@, types@, id@, 0) == Ok::<
                Seq<SpecParam>,
                SpecFail,
            >(ps@.map_values(|p: CqlParam| p@)),
            Err(e) => spec_coerce_params(query_data@, types@, id@, 0) == Err::<
                Seq<SpecParam>,
                SpecFail,
            >(fail_view(e)),
        }),
{
    let mut params: Vec<CqlParam> = Vec::new();
    let n = query_data.len();
    let mut j: usize = 0;
    proof {
        if spec_coerce_params(query_data@, types@, id@, 0) is Ok {
            assert(params@.map_values(|p: CqlParam| p@) + spec_coerce_params(
                query_data@,
                types@,
                id@,
                0,
            )->Ok_0 =~= spec_coerce_params(query_data@, types@, id@, 0)->Ok_0);
        }
    }
    while j < n
        invariant
            j <= n,
            n == query_data@.len(),
            spec_coerce_params(query_data@, types@, id@, 0) == (match spec_coerce_params(
                query_data@,
                types@,
                id@,
                j as int,
            ) {
                Ok(rest) => Ok::<Seq<SpecParam>, SpecFail>(
                    params@.map_values(|p: CqlParam| p@) + rest,
                ),
                Err(f) => Err::<Seq<SpecParam>, SpecFail>(f),
            }),
        decreases n - j,
    {
        let ghost ps0 = params@.map_values(|p: CqlParam| p@);
        let tag = types[j].clone();
        let ctx = logging_line(id, &query_data[j], tag.as_str());
        match cast_json_value_to_scylla_value(&query_data[j], tag, ctx) {
            Ok(p) => {
                params.push(p);
                proof {
                    if spec_coerce_params(query_data@, types@, id@, j as int + 1) is Ok {
                        assert(ps0 + spec_coerce_params(query_data@, types@, id@, j as int)->Ok_0
                            =~= params@.map_values(|p: CqlParam| p@) + spec_coerce_params(
                            query_data@,
                            types@,
                            id@,
                            j as int + 1,
                        )->Ok_0);
                    }
                }
            },
            Err(e) => {
                return Err(e);
            },
        }
        j = j + 1;
    }
    proof {
        assert(params@.map_values(|p: CqlParam| p@) + spec_coerce_params(
            query_data@,
            types@,
            id@,
            n as int,
        )->Ok_0 =~= params@.map_values(|p: CqlParam| p@));
    }
    Ok(params)
}

/// The bytes a wire token stands for: a token that is not canonical
/// base64 reads as empty, meaning no continuation.
pub open spec fn spec_token_bytes(paging: Seq<char>) -> Seq<u8> {
    match b64_decode_spec(paging) {
        Some(b) => b,
        None => Seq::<u8>::empty(),
    }
}

/// The execution variant a descriptor selects: prepared statements go by
/// handle; raw queries carry the declared page size when one is set; a
/// continuation token rides along only on the query side, and only when
/// the caller sent one.
pub open spec fn spec_select_command(
    d: StatementDescriptor,
    handle: Option<usize>,
    params: Seq<SpecParam>,
    paging: Seq<char>,
) -> SpecCommand {
    let tok = if paging.len() == 0 {
        None::<Seq<u8>>
    } else {
        Some(spec_token_bytes(paging))
    };
    if d.is_query {
        if d.is_prepared {
            SpecCommand::ExecutePrepared { handle: handle->0 as int, params, paging: tok }
        } else if d.per_page_results > 0 {
            SpecCommand::RunRaw {
                statement: d.statement@,
                page_size: Some(d.per_page_results as i32),
                params,
                paging: tok,
            }
        } else {
            SpecCommand::RunRaw { statement: d.statement@, page_size: None, params, paging: tok }
        }
    } else {
        if d.is_prepared {
            SpecCommand::ExecutePrepared { handle: handle->0 as int, params, paging: None }
        } else {
            SpecCommand::RunRaw { statement: d.statement@, page_size: None, params, paging: None }
        }
    }
}

/// The failure an unregistered statement id answers with: its own
/// not-found class, apart from the database errors.
pub open spec fn spec_unknown_statement(id: Seq<char>) -> SpecFail {
    SpecFail {
        status: 404,
        message: "unknown_statement"@,
        error_message: "unknown_statement"@,
        custom_error_message: id,
    }
}

/// The one plan a registered-path item gets: a lookup miss is its own
/// failure, a coercion failure stops the item, and otherwise the
/// descriptor picks the execution variant.
pub open spec fn spec_plan_registered(
    reg: Registry,
    id: Seq<char>,
    paging: Seq<char>,
    data: Seq<JsonVal>,
) -> Result<SpecPlan, SpecFail> {
    match spec_find(reg.entries@, id) {
        None => Err(spec_unknown_statement(id)),
        Some(idx) => {
            let d = reg.entries@[idx];
            match spec_coerce_params(data, d.param_types@, id, 0) {
                Err(f) => Err(f),
                Ok(ps) => Ok(
                    SpecPlan {
                        is_query: d.is_query,
                        command: spec_select_command(d, reg.handles@[idx], ps, paging),
                    },
                ),
            }
        },
    }
}

/// Plan one registered-path item.
pub fn plan_registered_statement(
    reg: &Registry,
    i_statement: &str,
    i_paging: &str,
    i_query_data: &Vec<JsonVal>,
) -> (r: Result<ItemPlan, ErrorBody>)
    requires
        reg.wf(),
        (spec_find(reg.entries@, i_statement@) matches Some(idx) ==> i_query_data@.len()
            <= reg.entries@[idx].param_types@.len()),
    ensures
        (match r {
            Ok(plan) => spec_plan_registered(*reg, i_statement@, i_paging@, i_query_data@)
                == Ok::<SpecPlan, SpecFail>(plan_view(plan)),
            Err(e) => spec_plan_registered(*reg, i_statement@, i_paging@, i_query_data@) == Err::<
                SpecPlan,
                SpecFail,
            >(fail_view(e)),
        }),
{
    proof {
        crate::registry::lemma_find_in_range(reg.entries@, i_statement@);
    }
    let idx = match reg.find(i_statement) {
        Some(idx) => idx,
        None => {
            return Err(
                ErrorBody {
                    status_code: 404,
                    message: "unknown_statement".to_owned(),
                    error_message: "unknown_statement".to_owned(),
                    custom_error_message: i_statement.to_owned(),
                },
            );
        },
    };
    let d = &reg.entries[idx];
    let params = match coerce_query_data(i_statement, i_query_data, &d.param_types) {
        Ok(ps) => ps,
        Err(e) => {
            return Err(e);
        },
    };
    let paging: Option<Vec<u8>> = if i_paging.is_empty() {
        None
    } else {
        Some(b64_decode(i_paging))
    };
    let command = if d.is_query {
        if d.is_prepared {
            let handle = match reg.handles[idx] {
                Some(h) => h,
                None => {
                    proof {
                        assert(false);
                    }
                    0
                },
            };
            DbCommand::ExecutePrepared { handle, params, paging }
        } else if d.per_page_results > 0 {
            DbCommand::RunRaw {
                statement: d.statement.clone(),
                page_size: Some(d.per_page_results as i32),
                params,
                paging,
            }
        } else {
            DbCommand::RunRaw { statement: d.statement.clone(), page_size: None, params, paging }
        }
    } else {
        if d.is_prepared {
            let handle = match reg.handles[idx] {
                Some(h) => h,
                None => {
                    proof {
                        assert(false);
                    }
                    0
                },
            };
            DbCommand::ExecutePrepared { handle, params, paging: None }
        } else {
            DbCommand::RunRaw {
                statement: d.statement.clone(),
                page_size: None,
                params,
                paging: None,
            }
        }
    };
    Ok(ItemPlan { is_query: d.is_query, command })
}

/// The one command an ad-hoc item gets: always raw, paged exactly when
/// the caller asked for pages.
pub open spec fn spec_plan_direct(statement: Seq<char>, pp: u64, paging: Seq<char>) -> SpecCommand {
    let tok = if paging.len() == 0 {
        None::<Seq<u8>>
    } else {
        Some(spec_token_bytes(paging))
    };
    SpecCommand::RunRaw {
        statement,
        page_size: if pp > 0 {
            Some(pp as i32)
        } else {
            None::<i32>
        },
        params: Seq::<SpecParam>::empty(),
        paging: tok,
    }
}

/// Plan one ad-hoc item: raw CQL, no parameter binding.
pub fn plan_direct_statement(i_statement: String, per_page_results: u64, i_paging: &str) -> (r:
    DbCommand)
    requires
        per_page_results <= 0x7fff_ffff,
    ensures
        r@ == spec_plan_direct(i_statement@, per_page_results, i_paging@),
{
    let paging: Option<Vec<u8>> = if i_paging.is_empty() {
        None
    } else {
        Some(b64_decode(i_paging))
    };
    let page_size: Option<i32> = if per_page_results > 0 {
        Some(per_page_results as i32)
    } else {
        None
    };
    let params: Vec<CqlParam> = Vec::new();
    proof {
        assert(params@.map_values(|p: CqlParam| p@) =~= Seq::<SpecParam>::empty());
    }
    DbCommand::RunRaw { statement: i_statement, page_size, params, paging }
}

} // verus!
