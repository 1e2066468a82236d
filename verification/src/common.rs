//! Shared pieces of the two dispatch surfaces: reading a request body,
//! the execution-result object, row marshalling, and the aggregation of a
//! batch into one response keyed by statement id.

use vstd::prelude::*;
use crate::json::{JsonVal, json_of, parse_json_text};
use crate::errors::ErrorBody;
use crate::paging::{b64_encode, b64_encode_spec};

verus! {

/// Read a request body as JSON and wrap it as the single `body` member of
/// the working object the validators look at.  A body that does not parse
/// is refused with a 400 error carrying the parse error's rendering.
pub fn init_input(body_text: &str) -> (r: Result<JsonVal, ErrorBody>)
    ensures
        (match r {
            Ok(oj) => json_of(body_text@) is Ok && oj is Obj && oj->Obj_0@.len() == 1
                && oj->Obj_0@[0].0@ == "body"@ && oj->Obj_0@[0].1 == json_of(body_text@)->Ok_0,
            Err(e) => json_of(body_text@) is Err && e.status_code == 400 && e.message@ == json_of(
                body_text@,
            )->Err_0 && e.error_message@ == json_of(body_text@)->Err_0 && e.custom_error_message@
                == json_of(body_text@)->Err_0,
        }),
{
    match parse_json_text(body_text) {
        Ok(v) => {
            let mut members: Vec<(String, JsonVal)> = Vec::new();
            members.push(("body".to_owned(), v));
            Ok(JsonVal::Obj(members))
        },
        Err(e) => Err(
            ErrorBody {
                status_code: 400,
                message: e.clone(),
                error_message: e.clone(),
                custom_error_message: e,
            },
        ),
    }
}

/// The answer for one executed statement: the rows as JSON objects, their
/// count, and the continuation token for the next page.
#[derive(Debug, PartialEq)]
pub struct ExecutionResult {
    pub records: Vec<JsonVal>,
    pub records_number: usize,
    pub paging_state: String,
}

impl ExecutionResult {
    /// The count always matches the rows handed back.
    pub open spec fn wf(self) -> bool {
        self.records_number == self.records@.len()
    }

    /// The JSON object form of the result, members in the order the wire
    /// shows them.
    pub fn to_json(self) -> (r: JsonVal)
        ensures
            is_result_json(r, self),
    {
        let mut members: Vec<(String, JsonVal)> = Vec::new();
        members.push(("paging_state".to_owned(), JsonVal::Str(self.paging_state)));
        members.push(("records".to_owned(), JsonVal::Arr(self.records)));
        members.push(("records_number".to_owned(), JsonVal::Uint(self.records_number as u64)));
        JsonVal::Obj(members)
    }
}

/// Every successful execution result counts exactly the records it
/// carries: `records_number` equals the length of `records`.
pub proof fn lemma_records_number_matches(res: ExecutionResult)
    requires
        res.wf(),
    ensures
        res.records_number == res.records@.len(),
{
}

/// How an execution result stands in the response JSON.
pub open spec fn is_result_json(v: JsonVal, res: ExecutionResult) -> bool {
    &&& v is Obj
    &&& v->Obj_0@.len() == 3
    &&& v->Obj_0@[0].0@ == "paging_state"@
    &&& v->Obj_0@[0].1 == JsonVal::Str(res.paging_state)
    &&& v->Obj_0@[1].0@ == "records"@
    &&& v->Obj_0@[1].1 == JsonVal::Arr(res.records)
    &&& v->Obj_0@[2].0@ == "records_number"@
    &&& v->Obj_0@[2].1 == JsonVal::Uint(res.records_number as u64)
}

/// The result every mutation answers with: no rows, no continuation.
pub fn mutation_result() -> (r: ExecutionResult)
    ensures
        r.wf(),
        r.records@.len() == 0,
        r.records_number == 0,
        r.paging_state@.len() == 0,
{
    ExecutionResult { records: Vec::new(), records_number: 0, paging_state: String::new() }
}

/// The bytes a result's continuation token holds: none reads as empty.
pub open spec fn spec_paging_bytes(p: Option<Vec<u8>>) -> Seq<u8> {
    match p {
        Some(b) => b@,
        None => Seq::<u8>::empty(),
    }
}

/// The continuation token of a result, written for the wire.
pub fn get_paging_state_from_result(paging_state: &Option<Vec<u8>>) -> (r: String)
    ensures
        r@ == b64_encode_spec(spec_paging_bytes(*paging_state)),
{
    match paging_state {
        Some(b) => b64_encode(b),
        None => {
            let empty: Vec<u8> = Vec::new();
            b64_encode(&empty)
        },
    }
}

/// Reading rows in order: the first column of each row parsed as JSON,
/// stopped by the first row that does not parse.
pub open spec fn spec_rows_parse(rows: Seq<String>, j: int) -> Result<Seq<JsonVal>, Seq<char>>
    decreases rows.len() - j,
{
    if j < 0 || j >= rows.len() {
        Ok(Seq::<JsonVal>::empty())
    } else {
        match json_of(rows[j]@) {
            Ok(v) => match spec_rows_parse(rows, j + 1) {
                Ok(rest) => Ok(seq![v] + rest),
                Err(e) => Err(e),
            },
            Err(e) => Err(e),
        }
    }
}

/// What marshalling answers for a result's rows: absent rows read as no
/// records.
pub open spec fn spec_rows_result(rows: Option<Vec<String>>) -> Result<Seq<JsonVal>, Seq<char>> {
    match rows {
        None => Ok(Seq::<JsonVal>::empty()),
        Some(v) => spec_rows_parse(v@, 0),
    }
}

/// Parse the first column of each returned row as JSON, in row order.
#[verifier::loop_isolation(false)]
pub fn get_json_rows_from_result(rows: &Option<Vec<String>>) -> (r: Result<Vec<JsonVal>, String>)
    ensures
        (match r {
            Ok(vs) => spec_rows_result(*rows) == Ok::<Seq<JsonVal>, Seq<char>>(vs@),
            Err(e) => spec_rows_result(*rows) == Err::<Seq<JsonVal>, Seq<char>>(e@),
        }),
{
    let mut resout: Vec<JsonVal> = Vec::new();
    match rows {
        None => Ok(resout),
        Some(v) => {
            let n = v.len();
            let mut j: usize = 0;
            proof {
                if spec_rows_parse(v@, 0) is Ok {
                    assert(resout@ + spec_rows_parse(v@, 0)->Ok_0 =~= spec_rows_parse(v@, 0)->Ok_0);
                }
            }
            while j < n
                invariant
                    j <= n,
                    n == v@.len(),
                    spec_rows_parse(v@, 0) == (match spec_rows_parse(v@, j as int) {
                        Ok(rest) => Ok::<Seq<JsonVal>, Seq<char>>(resout@ + rest),
                        Err(e) => Err::<Seq<JsonVal>, Seq<char>>(e),
                    }),
                decreases n - j,
            {
                let ghost res0 = resout@;
                match parse_json_text(v[j].as_str()) {
                    Ok(val) => {
                        resout.push(val);
                    },
                    Err(e) => {
                        return Err(e);
                    },
                }
                proof {
                    if spec_rows_parse(v@, j as int + 1) is Ok {
                        assert(res0 + spec_rows_parse(v@, j as int)->Ok_0 =~= resout@
                            + spec_rows_parse(v@, j as int + 1)->Ok_0);
                    }
                }
                j = j + 1;
            }
            proof {
                assert(resout@ + spec_rows_parse(v@, n as int)->Ok_0 =~= resout@);
            }
            Ok(resout)
        },
    }
}

/// The 500-class error every database-side failure is wrapped in.
pub fn scylla_error_body(msg: String) -> (r: ErrorBody)
    ensures
        r.status_code == 500,
        r.message@ == msg@,
        r.error_message@ == "scylla_error"@,
        r.custom_error_message@ == msg@,
{
    ErrorBody {
        status_code: 500,
        message: msg.clone(),
        error_message: "scylla_error".to_owned(),
        custom_error_message: msg,
    }
}

/// Marshal one query outcome: rows parsed in order, the count, and the
/// encoded continuation token.  A row that does not parse fails the item
/// with the database-error shape.
pub fn marshal_query_result(rows: Option<Vec<String>>, paging_state: Option<Vec<u8>>) -> (r:
    Result<ExecutionResult, ErrorBody>)
    ensures
        (match r {
            Ok(res) => res.wf() && spec_rows_result(rows) is Ok && res.records@ == spec_rows_result(
                rows,
            )->Ok_0 && res.paging_state@ == b64_encode_spec(spec_paging_bytes(paging_state)),
            Err(e) => spec_rows_result(rows) is Err && e.status_code == 500 && e.message@
                == spec_rows_result(rows)->Err_0 && e.error_message@ == "scylla_error"@
                && e.custom_error_message@ == spec_rows_result(rows)->Err_0,
        }),
{
    let o_page = get_paging_state_from_result(&paging_state);
    match get_json_rows_from_result(&rows) {
        Ok(resout) => {
            let n = resout.len();
            Ok(ExecutionResult { records: resout, records_number: n, paging_state: o_page })
        },
        Err(e) => Err(scylla_error_body(e)),
    }
}

/// The first member of `acc` keyed `key`, scanned from the front.
pub open spec fn spec_key_index(acc: Seq<(String, ExecutionResult)>, key: Seq<char>) -> Option<int>
    decreases acc.len(),
{
    if acc.len() == 0 {
        None
    } else if acc[0].0@ == key {
        Some(0int)
    } else {
        match spec_key_index(acc.drop_first(), key) {
            Some(j) => Some(j + 1),
            None => None,
        }
    }
}

/// What setting a key does: the first member with that key is replaced,
/// or a new member is appended.
pub open spec fn spec_set_result(
    acc: Seq<(String, ExecutionResult)>,
    key: String,
    value: ExecutionResult,
) -> Seq<(String, ExecutionResult)> {
    match spec_key_index(acc, key@) {
        Some(j) => acc.update(j, (key, value)),
        None => acc.push((key, value)),
    }
}

/// Set one statement id's result in the response being built, replacing
/// an earlier result under the same id.
#[verifier::loop_isolation(false)]
pub fn set_result(results: &mut Vec<(String, ExecutionResult)>, key: String, value: ExecutionResult)
    ensures
        final(results)@ == spec_set_result(old(results)@, key, value),
{
    let n = results.len();
    let mut j: usize = 0;
    proof {
        assert(results@.skip(0) =~= results@);
    }
    while j < n
        invariant
            j <= n,
            n == results@.len(),
            results@ == old(results)@,
            spec_key_index(results@, key@) == (match spec_key_index(results@.skip(j as int), key@) {
                Some(k) => Some(k + j as int),
                None => None::<int>,
            }),
        decreases n - j,
    {
        proof {
            assert(results@.skip(j as int)[0] == results@[j as int]);
        }
        if results[j].0 == key {
            results.set(j, (key, value));
            return ;
        }
        proof {
            assert(results@.skip(j as int).drop_first() =~= results@.skip(j as int + 1));
        }
        j = j + 1;
    }
    proof {
        assert(results@.skip(n as int) =~= Seq::<(String, ExecutionResult)>::empty());
    }
    results.push((key, value));
}

/// Folding a batch's per-item outcomes into one response: results keyed
/// by id in submission order, later results under one id replacing
/// earlier ones, and the first error failing the whole batch.
pub open spec fn spec_aggregate(
    outs: Seq<(String, Result<ExecutionResult, ErrorBody>)>,
    acc: Seq<(String, ExecutionResult)>,
) -> Result<Seq<(String, ExecutionResult)>, ErrorBody>
    decreases outs.len(),
{
    if outs.len() == 0 {
        Ok(acc)
    } else {
        match outs[0].1 {
            Ok(res) => spec_aggregate(outs.drop_first(), spec_set_result(acc, outs[0].0, res)),
            Err(e) => Err(e),
        }
    }
}

/// Fold a batch's per-item outcomes, submission order kept.
#[verifier::loop_isolation(false)]
pub fn aggregate_batch(outcomes: Vec<(String, Result<ExecutionResult, ErrorBody>)>) -> (r: Result<
    Vec<(String, ExecutionResult)>,
    ErrorBody,
>)
    ensures
        (match r {
            Ok(acc) => spec_aggregate(outcomes@, Seq::empty()) == Ok::<
                Seq<(String, ExecutionResult)>,
                ErrorBody,
            >(acc@),
            Err(e) => spec_aggregate(outcomes@, Seq::empty()) == Err::<
                Seq<(String, ExecutionResult)>,
                ErrorBody,
            >(e),
        }),
{
    let mut rest = outcomes;
    let mut acc: Vec<(String, ExecutionResult)> = Vec::new();
    while rest.len() > 0
        invariant
            spec_aggregate(outcomes@, Seq::empty()) == spec_aggregate(rest@, acc@),
        decreases rest@.len(),
    {
        let (key, outcome) = rest.remove(0);
        match outcome {
            Ok(res) => {
                set_result(&mut acc, key, res);
            },
            Err(e) => {
                return Err(e);
            },
        }
    }
    Ok(acc)
}

/// A batch whose items succeed up to position `k` and fail there answers
/// with exactly the item `k`'s error, whatever was built before: no
/// partial response survives an error.
pub proof fn lemma_batch_first_error(
    outs: Seq<(String, Result<ExecutionResult, ErrorBody>)>,
    acc: Seq<(String, ExecutionResult)>,
    k: int,
)
    requires
        0 <= k < outs.len(),
        outs[k].1 is Err,
        forall|j: int| 0 <= j < k ==> outs[j].1 is Ok,
    ensures
        spec_aggregate(outs, acc) == Err::<Seq<(String, ExecutionResult)>, ErrorBody>(
            outs[k].1->Err_0,
        ),
    decreases k,
{
    if k > 0 {
        lemma_batch_first_error(
            outs.drop_first(),
            spec_set_result(acc, outs[0].0, outs[0].1->Ok_0),
            k - 1,
        );
    }
}

/// Each member of the response object keys one result by its id and
/// holds that result's JSON form.
pub open spec fn response_members_match(
    members: Seq<(String, JsonVal)>,
    results: Seq<(String, ExecutionResult)>,
) -> bool {
    forall|j: int|
        #![auto]
        0 <= j < members.len() ==> members[j].0 == results[j].0 && is_result_json(
            members[j].1,
            results[j].1,
        )
}

/// The whole response as one JSON object keyed by statement id.
#[verifier::loop_isolation(false)]
pub fn results_to_json(results: Vec<(String, ExecutionResult)>) -> (r: JsonVal)
    ensures
        r is Obj,
        r->Obj_0@.len() == results@.len(),
        response_members_match(r->Obj_0@, results@),
{
    let mut rest = results;
    let mut members: Vec<(String, JsonVal)> = Vec::new();
    proof {
        assert(rest@ =~= results@.skip(0));
    }
    while rest.len() > 0
        invariant
            members@.len() + rest@.len() == results@.len(),
            rest@ == results@.skip(members@.len() as int),
            response_members_match(members@, results@),
        decreases rest@.len(),
    {
        let ghost members0 = members@;
        let ghost k = members@.len() as int;
        proof {
            assert(results@.skip(k)[0] == results@[k]);
        }
        let (key, res) = rest.remove(0);
        let ghost keyg = key;
        let ghost resg = res;
        proof {
            assert(rest@ =~= results@.skip(k + 1));
        }
        let value = res.to_json();
        let ghost valueg = value;
        members.push((key, value));
        proof {
            assert(members@ == members0.push((keyg, valueg)));
            assert(members@[k] == (keyg, valueg));
            assert(keyg == results@[k].0);
            assert(is_result_json(valueg, resg));
            assert forall|j: int| #![auto] 0 <= j < members@.len() implies members@[j].0
                == results@[j].0 && is_result_json(members@[j].1, results@[j].1) by {
                if j < k {
                    assert(members@[j] == members0[j]);
                    assert(is_result_json(members0[j].1, results@[j].1));
                }
            }
            assert(response_members_match(members@, results@));
        }
    }
    JsonVal::Obj(members)
}

} // verus!
