//! The statement registry: the immutable catalog of pre-declared
//! statements with their metadata, the prepare plan derived from it at
//! startup, and the handle bookkeeping that the dispatcher works against.
//!
//! The handles themselves live with the database session outside this
//! crate; the registry assigns each prepared entry the index of its
//! prepare request, in plan order, so that every prepared descriptor owns
//! a resident handle slot once startup has run the plan.

use vstd::prelude::*;
use crate::json::{JsonVal, spec_obj_get, spec_as_u64};
use crate::text::{uint_text, push_uint};

verus! {

/// One pre-declared statement and its metadata.
#[derive(Debug, Clone, PartialEq)]
pub struct StatementDescriptor {
    pub name: String,
    pub statement: String,
    pub is_query: bool,
    pub is_prepared: bool,
    pub is_paged: bool,
    pub per_page_results: u64,
    pub param_types: Vec<String>,
}

/// The parameter type tags of a catalog entry's `casting` object, read at
/// the keys `"0"`, `"1"`, ... until the first missing index; a tag that
/// is not a string makes the entry unreadable.
pub open spec fn spec_tags(c: Seq<(String, JsonVal)>, i: nat) -> Option<Seq<String>>
    decreases c.len() - i,
{
    if i >= c.len() {
        Some(Seq::<String>::empty())
    } else {
        match spec_obj_get(c, uint_text(i)) {
            None => Some(Seq::<String>::empty()),
            Some(JsonVal::Str(s)) => match spec_tags(c, i + 1) {
                Some(rest) => Some(seq![s] + rest),
                None => None::<Seq<String>>,
            },
            Some(_) => None::<Seq<String>>,
        }
    }
}

/// What a readable catalog entry holds: the statement text, the three
/// mode flags, a page size that fits the driver's page-size type, and a
/// readable casting object.
pub open spec fn entry_wf(v: JsonVal) -> bool {
    &&& v is Obj
    &&& (spec_obj_get(v->Obj_0@, "statement"@) matches Some(s) && s is Str)
    &&& (spec_obj_get(v->Obj_0@, "is_query"@) matches Some(q) && q is Bool)
    &&& (spec_obj_get(v->Obj_0@, "is_paged"@) matches Some(p) && p is Bool)
    &&& (spec_obj_get(v->Obj_0@, "is_prepared"@) matches Some(pr) && pr is Bool)
    &&& (spec_obj_get(v->Obj_0@, "per_page_results"@) matches Some(pp) && spec_as_u64(pp) matches
        Some(u) && u <= 0x7fff_ffff)
    &&& (spec_obj_get(v->Obj_0@, "casting"@) matches Some(c) && c is Obj && spec_tags(c->Obj_0@, 0)
        is Some)
}

/// A whole catalog is readable when each entry is.
pub open spec fn catalog_wf(catalog: JsonVal) -> bool {
    &&& catalog is Obj
    &&& forall|i: int|
        #![auto]
        0 <= i < catalog->Obj_0@.len() ==> entry_wf(catalog->Obj_0@[i].1)
}

/// The descriptor `d` reads entry `v`, named `name`, field for field.
pub open spec fn descriptor_matches_entry(d: StatementDescriptor, name: String, v: JsonVal) -> bool {
    &&& d.name == name
    &&& v is Obj
    &&& spec_obj_get(v->Obj_0@, "statement"@) == Some(JsonVal::Str(d.statement))
    &&& spec_obj_get(v->Obj_0@, "is_query"@) == Some(JsonVal::Bool(d.is_query))
    &&& spec_obj_get(v->Obj_0@, "is_paged"@) == Some(JsonVal::Bool(d.is_paged))
    &&& spec_obj_get(v->Obj_0@, "is_prepared"@) == Some(JsonVal::Bool(d.is_prepared))
    &&& (spec_obj_get(v->Obj_0@, "per_page_results"@) matches Some(pp) && spec_as_u64(pp) == Some(
        d.per_page_results,
    ))
    &&& d.per_page_results <= 0x7fff_ffff
    &&& (spec_obj_get(v->Obj_0@, "casting"@) matches Some(c) && c is Obj && spec_tags(c->Obj_0@, 0)
        == Some(d.param_types@))
}

/// Read the casting object's tags in index order.
#[verifier::loop_isolation(false)]
fn read_tags(c: &JsonVal) -> (r: Option<Vec<String>>)
    requires
        *c is Obj,
    ensures
        (match r {
            Some(tags) => spec_tags(c->Obj_0@, 0) == Some(tags@),
            None => spec_tags(c->Obj_0@, 0) is None,
        }),
{
    let mut tags: Vec<String> = Vec::new();
    let members_len = match c {
        JsonVal::Obj(members) => members.len(),
        _ => 0,
    };
    let mut ti: usize = 0;
    let mut stopped = false;
    proof {
        if spec_tags(c->Obj_0@, 0) is Some {
            assert(tags@ + spec_tags(c->Obj_0@, 0)->Some_0 =~= spec_tags(c->Obj_0@, 0)->Some_0);
        }
    }
    while ti < members_len && !stopped
        invariant
            ti <= members_len,
            members_len == c->Obj_0@.len(),
            spec_tags(c->Obj_0@, 0) == (match spec_tags(c->Obj_0@, ti as nat) {
                Some(rest) => Some(tags@ + rest),
                None => None::<Seq<String>>,
            }),
            stopped ==> spec_tags(c->Obj_0@, ti as nat) == Some(Seq::<String>::empty()),
        decreases members_len - ti, (if stopped {
            0int
        } else {
            1int
        }),
    {
        let ghost tags0 = tags@;
        let mut key = String::new();
        push_uint(&mut key, ti as u64);
        match c.get(key.as_str()) {
            None => {
                stopped = true;
            },
            Some(tv) => match tv {
                JsonVal::Str(s) => {
                    tags.push(s.clone());
                    proof {
                        if spec_tags(c->Obj_0@, ti as nat + 1) is Some {
                            assert(tags0 + spec_tags(c->Obj_0@, ti as nat)->Some_0 =~= tags@
                                + spec_tags(c->Obj_0@, ti as nat + 1)->Some_0);
                        }
                    }
                    ti = ti + 1;
                },
                _ => {
                    return None;
                },
            },
        }
    }
    proof {
        assert(tags@ + spec_tags(c->Obj_0@, ti as nat)->Some_0 =~= tags@);
    }
    Some(tags)
}

/// Read one catalog entry into a descriptor.
fn read_entry(name: &String, v: &JsonVal) -> (r: Option<StatementDescriptor>)
    ensures
        (r matches Some(d) ==> entry_wf(*v) && descriptor_matches_entry(d, *name, *v)),
        (r is None ==> !entry_wf(*v)),
{
    if !v.is_object() {
        return None;
    }
    let statement = match v.get("statement") {
        Some(s) => match s {
            JsonVal::Str(t) => t.clone(),
            _ => {
                return None;
            },
        },
        None => {
            return None;
        },
    };
    let is_query = match v.get("is_query") {
        Some(b) => match b.as_bool() {
            Some(x) => x,
            None => {
                return None;
            },
        },
        None => {
            return None;
        },
    };
    let is_paged = match v.get("is_paged") {
        Some(b) => match b.as_bool() {
            Some(x) => x,
            None => {
                return None;
            },
        },
        None => {
            return None;
        },
    };
    let is_prepared = match v.get("is_prepared") {
        Some(b) => match b.as_bool() {
            Some(x) => x,
            None => {
                return None;
            },
        },
        None => {
            return None;
        },
    };
    let per_page_results = match v.get("per_page_results") {
        Some(n) => match n.as_u64() {
            Some(u) => u,
            None => {
                return None;
            },
        },
        None => {
            return None;
        },
    };
    if per_page_results > 0x7fff_ffff {
        return None;
    }
    let param_types = match v.get("casting") {
        Some(c) => {
            if !c.is_object() {
                return None;
            }
            match read_tags(c) {
                Some(tags) => tags,
                None => {
                    return None;
                },
            }
        },
        None => {
            return None;
        },
    };
    Some(
        StatementDescriptor {
            name: name.clone(),
            statement,
            is_query,
            is_prepared,
            is_paged,
            per_page_results,
            param_types,
        },
    )
}

/// Read the whole catalog into descriptors, entry order kept.  A catalog
/// with an unreadable entry is refused whole: startup has nothing to run
/// on.
#[verifier::loop_isolation(false)]
pub fn parse_catalog(catalog: &JsonVal) -> (r: Option<Vec<StatementDescriptor>>)
    ensures
        (r is Some) == catalog_wf(*catalog),
        (r matches Some(ds) ==> ds@.len() == catalog->Obj_0@.len() && forall|i: int|
            #![auto]
            0 <= i < ds@.len() ==> descriptor_matches_entry(
                ds@[i],
                catalog->Obj_0@[i].0,
                catalog->Obj_0@[i].1,
            )),
{
    let members = match catalog {
        JsonVal::Obj(members) => members,
        _ => {
            return None;
        },
    };
    let n = members.len();
    let mut ds: Vec<StatementDescriptor> = Vec::new();
    let mut i: usize = 0;
    while i < n
        invariant
            i <= n,
            n == catalog->Obj_0@.len(),
            ds@.len() == i,
            forall|j: int| #![auto] 0 <= j < i ==> entry_wf(catalog->Obj_0@[j].1),
            forall|j: int|
                #![auto]
                0 <= j < i ==> descriptor_matches_entry(
                    ds@[j],
                    catalog->Obj_0@[j].0,
                    catalog->Obj_0@[j].1,
                ),
        decreases n - i,
    {
        let ghost ds0 = ds@;
        match read_entry(&members[i].0, &members[i].1) {
            Some(d) => {
                let ghost dg = d;
                ds.push(d);
                proof {
                    assert(ds@ == ds0.push(dg));
                    assert(members@ == catalog->Obj_0@);
                    assert forall|j: int|
                        #![auto]
                        0 <= j < i as int + 1 implies entry_wf(catalog->Obj_0@[j].1)
                        && descriptor_matches_entry(
                        ds@[j],
                        catalog->Obj_0@[j].0,
                        catalog->Obj_0@[j].1,
                    ) by {
                        if j < i as int {
                            assert(ds@[j] == ds0[j]);
                            assert(entry_wf(catalog->Obj_0@[j].1));
                            assert(descriptor_matches_entry(
                                ds0[j],
                                catalog->Obj_0@[j].0,
                                catalog->Obj_0@[j].1,
                            ));
                        } else {
                            assert(ds@[j] == dg);
                        }
                    }
                }
            },
            None => {
                proof {
                    assert(members@ == catalog->Obj_0@);
                    assert(!entry_wf(catalog->Obj_0@[i as int].1));
                    assert(!catalog_wf(*catalog));
                }
                return None;
            },
        }
        i = i + 1;
    }
    proof {
        assert(catalog_wf(*catalog));
    }
    Some(ds)
}

/// One prepare request of the startup plan: the statement text and, for a
/// paged statement, the page size to attach to the handle.
#[derive(Debug, PartialEq)]
pub struct PrepareRequest {
    pub statement: String,
    pub page_size: Option<i32>,
}

/// The request a prepared descriptor puts in the plan.
pub open spec fn spec_request_of(d: StatementDescriptor) -> PrepareRequest {
    PrepareRequest {
        statement: d.statement,
        page_size: if d.is_paged {
            Some(d.per_page_results as i32)
        } else {
            None::<i32>
        },
    }
}

/// The startup plan: one request per prepared descriptor, in catalog
/// order.
pub open spec fn spec_prepare_requests(s: Seq<StatementDescriptor>) -> Seq<PrepareRequest>
    decreases s.len(),
{
    if s.len() == 0 {
        Seq::<PrepareRequest>::empty()
    } else if s[0].is_prepared {
        seq![spec_request_of(s[0])] + spec_prepare_requests(s.drop_first())
    } else {
        spec_prepare_requests(s.drop_first())
    }
}

/// How many of the first `i` descriptors are prepared.
pub open spec fn spec_prepared_count(s: Seq<StatementDescriptor>, i: int) -> int
    decreases i,
{
    if i <= 0 || s.len() == 0 {
        0
    } else {
        (if s[0].is_prepared {
            1int
        } else {
            0int
        }) + spec_prepared_count(s.drop_first(), i - 1)
    }
}

/// Build the startup plan for the session to run.
#[verifier::loop_isolation(false)]
pub fn prepare_requests(descs: &Vec<StatementDescriptor>) -> (r: Vec<PrepareRequest>)
    ensures
        r@ == spec_prepare_requests(descs@),
{
    let mut out: Vec<PrepareRequest> = Vec::new();
    let n = descs.len();
    let mut i: usize = 0;
    proof {
        assert(descs@.skip(0) =~= descs@);
        assert(out@ + spec_prepare_requests(descs@) =~= spec_prepare_requests(descs@));
    }
    while i < n
        invariant
            i <= n,
            n == descs@.len(),
            out@ + spec_prepare_requests(descs@.skip(i as int)) == spec_prepare_requests(descs@),
        decreases n - i,
    {
        let ghost out0 = out@;
        proof {
            assert(descs@.skip(i as int)[0] == descs@[i as int]);
            assert(descs@.skip(i as int).drop_first() =~= descs@.skip(i as int + 1));
        }
        if descs[i].is_prepared {
            let page_size: Option<i32> = if descs[i].is_paged {
                Some(descs[i].per_page_results as i32)
            } else {
                None
            };
            out.push(PrepareRequest { statement: descs[i].statement.clone(), page_size });
        }
        proof {
            assert(out@ + spec_prepare_requests(descs@.skip(i as int + 1)) =~= out0
                + spec_prepare_requests(descs@.skip(i as int)));
        }
        i = i + 1;
    }
    proof {
        assert(descs@.skip(n as int) =~= Seq::<StatementDescriptor>::empty());
        assert(out@ + spec_prepare_requests(descs@.skip(n as int)) =~= out@);
    }
    out
}

/// The registry: the catalog of descriptors beside the handle slot of
/// each prepared entry.  A handle is the index of the entry's request in
/// the startup plan, under which the session keeps the prepared
/// statement.
pub struct Registry {
    pub entries: Vec<StatementDescriptor>,
    pub handles: Vec<Option<usize>>,
}

impl Registry {
    /// Every prepared descriptor owns a handle slot pointing into the
    /// startup plan at its own request; no other descriptor holds one.
    pub open spec fn wf(self) -> bool {
        &&& self.handles@.len() == self.entries@.len()
        &&& forall|i: int|
            #![auto]
            0 <= i < self.entries@.len() ==> (self.handles@[i] is Some)
                == self.entries@[i].is_prepared
        &&& forall|i: int|
            #![auto]
            0 <= i < self.entries@.len() && self.entries@[i].is_prepared ==> self.handles@[i]->0
                as int == spec_prepared_count(self.entries@, i)
    }

    /// Tie the catalog to its startup plan.
    #[verifier::loop_isolation(false)]
    pub fn new(entries: Vec<StatementDescriptor>) -> (r: Registry)
        ensures
            r.wf(),
            r.entries == entries,
    {
        let mut handles: Vec<Option<usize>> = Vec::new();
        let n = entries.len();
        let mut i: usize = 0;
        let mut k: usize = 0;
        while i < n
            invariant
                i <= n,
                n == entries@.len(),
                handles@.len() == i,
                k == spec_prepared_count_prefix(entries@, i as int),
                k <= i,
                forall|j: int|
                    #![auto]
                    0 <= j < i ==> (handles@[j] is Some) == entries@[j].is_prepared,
                forall|j: int|
                    #![auto]
                    0 <= j < i && entries@[j].is_prepared ==> handles@[j]->0 as int
                        == spec_prepared_count_prefix(entries@, j),
            decreases n - i,
        {
            if entries[i].is_prepared {
                handles.push(Some(k));
                k = k + 1;
            } else {
                handles.push(None);
            }
            i = i + 1;
        }
        proof {
            assert forall|j: int| 0 <= j < entries@.len() implies spec_prepared_count_prefix(
                entries@,
                j,
            ) == spec_prepared_count(entries@, j) by {
                lemma_prepared_count_forms(entries@, j);
            }
        }
        Registry { entries, handles }
    }

    /// The first descriptor with the wanted name, if one is registered.
    #[verifier::loop_isolation(false)]
    pub fn find(&self, name: &str) -> (r: Option<usize>)
        ensures
            (match spec_find(self.entries@, name@) {
                Some(j) => r is Some && r->0 == j,
                None => r is None,
            }),
    {
        let owned: String = name.to_owned();
        let n = self.entries.len();
        let mut j: usize = 0;
        proof {
            assert(self.entries@.skip(0) =~= self.entries@);
        }
        while j < n
            invariant
                j <= n,
                n == self.entries@.len(),
                spec_find(self.entries@, name@) == (match spec_find(
                    self.entries@.skip(j as int),
                    name@,
                ) {
                    Some(k) => Some(k + j as int),
                    None => None::<int>,
                }),
            decreases n - j,
        {
            proof {
                assert(self.entries@.skip(j as int)[0] == self.entries@[j as int]);
            }
            if self.entries[j].name == owned {
                return Some(j);
            }
            proof {
                assert(self.entries@.skip(j as int).drop_first() =~= self.entries@.skip(
                    j as int + 1,
                ));
            }
            j = j + 1;
        }
        proof {
            assert(self.entries@.skip(n as int) =~= Seq::<StatementDescriptor>::empty());
        }
        None
    }
}

/// The count of prepared descriptors among the first `i`, summed from the
/// left; the same number `spec_prepared_count` reaches by recursion.
pub open spec fn spec_prepared_count_prefix(s: Seq<StatementDescriptor>, i: int) -> int
    decreases i,
{
    if i <= 0 {
        0
    } else {
        spec_prepared_count_prefix(s, i - 1) + (if 0 <= i - 1 < s.len() && s[i - 1].is_prepared {
            1int
        } else {
            0int
        })
    }
}

/// The two countings agree.
proof fn lemma_prepared_count_forms(s: Seq<StatementDescriptor>, i: int)
    requires
        0 <= i <= s.len(),
    ensures
        spec_prepared_count_prefix(s, i) == spec_prepared_count(s, i),
    decreases i,
{
    if i > 0 {
        lemma_prepared_count_forms(s, i - 1);
        lemma_prepared_count_shift(s, i - 1);
    }
}

/// Counting one more from the front adds the entry at that position.
proof fn lemma_prepared_count_shift(s: Seq<StatementDescriptor>, i: int)
    requires
        0 <= i < s.len(),
    ensures
        spec_prepared_count(s, i + 1) == spec_prepared_count(s, i) + (if s[i].is_prepared {
            1int
        } else {
            0int
        }),
    decreases i,
{
    assert(spec_prepared_count(s, i + 1) == (if s[0].is_prepared {
        1int
    } else {
        0int
    }) + spec_prepared_count(s.drop_first(), i));
    if i > 0 {
        lemma_prepared_count_shift(s.drop_first(), i - 1);
        assert(s.drop_first()[i - 1] == s[i]);
        assert(spec_prepared_count(s, i) == (if s[0].is_prepared {
            1int
        } else {
            0int
        }) + spec_prepared_count(s.drop_first(), i - 1));
    } else {
        assert(spec_prepared_count(s.drop_first(), 0) == 0);
        assert(spec_prepared_count(s, 0) == 0);
    }
}

/// The count of prepared descriptors among the first `i` is between zero
/// and `i`.
proof fn lemma_prepared_count_bounds(s: Seq<StatementDescriptor>, i: int)
    requires
        0 <= i <= s.len(),
    ensures
        0 <= spec_prepared_count(s, i) <= i,
    decreases i,
{
    if i > 0 && s.len() > 0 {
        lemma_prepared_count_bounds(s.drop_first(), i - 1);
    }
}

/// The first descriptor named `name`, scanned from the front.
pub open spec fn spec_find(s: Seq<StatementDescriptor>, name: Seq<char>) -> Option<int>
    decreases s.len(),
{
    if s.len() == 0 {
        None
    } else if s[0].name@ == name {
        Some(0int)
    } else {
        match spec_find(s.drop_first(), name) {
            Some(j) => Some(j + 1),
            None => None,
        }
    }
}

/// A found name indexes a registered descriptor bearing that name.
pub proof fn lemma_find_in_range(s: Seq<StatementDescriptor>, name: Seq<char>)
    ensures
        (spec_find(s, name) matches Some(j) ==> 0 <= j < s.len() && s[j].name@ == name),
    decreases s.len(),
{
    if s.len() > 0 && s[0].name@ != name {
        lemma_find_in_range(s.drop_first(), name);
    }
}

/// Every prepared descriptor's handle indexes the startup plan exactly at
/// the request carrying that descriptor's own text and page size: after
/// startup the registry holds a resident prepared handle for each
/// prepared statement.
pub proof fn lemma_prepared_handle(reg: Registry, i: int)
    requires
        reg.wf(),
        0 <= i < reg.entries@.len(),
        reg.entries@[i].is_prepared,
    ensures
        reg.handles@[i] is Some,
        reg.handles@[i]->0 < spec_prepare_requests(reg.entries@).len(),
        spec_prepare_requests(reg.entries@)[reg.handles@[i]->0 as int] == spec_request_of(
            reg.entries@[i],
        ),
{
    lemma_prepared_count_bounds(reg.entries@, i);
    lemma_prepared_request_at(reg.entries@, i);
}

/// The request at position `count before i` of the plan is descriptor
/// `i`'s own, for every prepared descriptor `i`.
proof fn lemma_prepared_request_at(s: Seq<StatementDescriptor>, i: int)
    requires
        0 <= i < s.len(),
        s[i].is_prepared,
    ensures
        0 <= spec_prepared_count(s, i) < spec_prepare_requests(s).len(),
        spec_prepare_requests(s)[spec_prepared_count(s, i)] == spec_request_of(s[i]),
    decreases i,
{
    if i == 0 {
        assert(spec_prepare_requests(s)[0] == spec_request_of(s[0]));
    } else {
        lemma_prepared_request_at(s.drop_first(), i - 1);
        assert(s.drop_first()[i - 1] == s[i]);
        let k = spec_prepared_count(s.drop_first(), i - 1);
        if s[0].is_prepared {
            assert(spec_prepare_requests(s) == seq![spec_request_of(s[0])]
                + spec_prepare_requests(s.drop_first()));
            assert(spec_prepare_requests(s)[k + 1] == spec_prepare_requests(s.drop_first())[k]);
        }
    }
}

} // verus!
