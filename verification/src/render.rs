//! Compact JSON rendering of the value model: no whitespace, object
//! members in the order held, strings escaped as `text` defines.
//!
//! Floating-point numbers are written by their carried source text, so a
//! value that came in through the parser goes out letter for letter as the
//! parser's own writer would have written it.

use vstd::prelude::*;
use vstd::string::StringExecFns;
use crate::json::JsonVal;
use crate::text::{int_text, uint_text, quoted_text, push_int, push_uint, push_quoted};

verus! {

/// The compact JSON rendering of a value.
pub open spec fn render_spec(v: JsonVal) -> Seq<char>
    decreases v, 0int,
{
    match v {
        JsonVal::Null => "null"@,
        JsonVal::Bool(b) => if b {
            "true"@
        } else {
            "false"@
        },
        JsonVal::Int(i) => int_text(i as int),
        JsonVal::Uint(u) => uint_text(u as nat),
        JsonVal::Float(t) => t@,
        JsonVal::Str(s) => quoted_text(s@),
        JsonVal::Arr(a) => seq!['['] + items_text(a@, 0) + seq![']'],
        JsonVal::Obj(m) => seq!['{'] + members_text(m@, 0) + seq!['}'],
    }
}

/// The renderings of `items[i..]`, comma-separated, as they stand inside
/// the brackets of an array whose first element is `items[0]`.
pub open spec fn items_text(items: Seq<JsonVal>, i: int) -> Seq<char>
    decreases items, items.len() - i,
{
    if i < 0 || i >= items.len() {
        Seq::<char>::empty()
    } else {
        (if i == 0 {
            Seq::<char>::empty()
        } else {
            seq![',']
        }) + render_spec(items[i]) + items_text(items, i + 1)
    }
}

/// The renderings of the members `ms[i..]`, comma-separated, as they stand
/// inside the braces of an object whose first member is `ms[0]`.
pub open spec fn members_text(ms: Seq<(String, JsonVal)>, i: int) -> Seq<char>
    decreases ms, ms.len() - i,
{
    if i < 0 || i >= ms.len() {
        Seq::<char>::empty()
    } else {
        (if i == 0 {
            Seq::<char>::empty()
        } else {
            seq![',']
        }) + quoted_text(ms[i].0@) + seq![':'] + render_spec(ms[i].1) + members_text(ms, i + 1)
    }
}

/// Render a value to a fresh string.
pub fn render_json(v: &JsonVal) -> (r: String)
    ensures
        r@ == render_spec(*v),
{
    let mut out = String::new();
    push_json_text(&mut out, v);
    proof {
        assert(Seq::<char>::empty() + render_spec(*v) =~= render_spec(*v));
    }
    out
}

/// Append the rendering of `v` to `out`.
#[verifier::loop_isolation(false)]
pub fn push_json_text(out: &mut String, v: &JsonVal)
    ensures
        final(out)@ == old(out)@ + render_spec(*v),
    decreases *v,
{
    match v {
        JsonVal::Null => {
            out.append("null");
        },
        JsonVal::Bool(b) => {
            if *b {
                out.append("true");
            } else {
                out.append("false");
            }
        },
        JsonVal::Int(i) => {
            push_int(out, *i);
        },
        JsonVal::Uint(u) => {
            push_uint(out, *u);
        },
        JsonVal::Float(t) => {
            out.append(t.as_str());
        },
        JsonVal::Str(s) => {
            push_quoted(out, s.as_str());
        },
        JsonVal::Arr(a) => {
            out.push('[');
            let n = a.len();
            proof {
                assert(out@ + items_text(a@, 0) =~= old(out)@ + (seq!['['] + items_text(a@, 0)));
            }
            let mut i: usize = 0;
            while i < n
                invariant
                    n == a@.len(),
                    i <= n,
                    out@ + items_text(a@, i as int) == old(out)@ + (seq!['['] + items_text(a@, 0)),
                decreases n - i,
            {
                let ghost out0 = out@;
                if i > 0 {
                    out.push(',');
                }
                proof {
                    vstd::seq::axiom_seq_index_decreases(a@, i as int);
                    assert(decreases_to!(*v => a@[i as int]));
                }
                push_json_text(out, &a[i]);
                proof {
                    assert(out@ + items_text(a@, i as int + 1) =~= out0 + items_text(
                        a@,
                        i as int,
                    ));
                }
                i = i + 1;
            }
            out.push(']');
            proof {
                assert(items_text(a@, n as int) =~= Seq::<char>::empty());
                assert((old(out)@ + (seq!['['] + items_text(a@, 0))).push(']') =~= old(out)@
                    + render_spec(*v));
            }
        },
        JsonVal::Obj(m) => {
            out.push('{');
            let n = m.len();
            proof {
                assert(out@ + members_text(m@, 0) =~= old(out)@ + (seq!['{'] + members_text(
                    m@,
                    0,
                )));
            }
            let mut i: usize = 0;
            while i < n
                invariant
                    n == m@.len(),
                    i <= n,
                    out@ + members_text(m@, i as int) == old(out)@ + (seq!['{'] + members_text(
                        m@,
                        0,
                    )),
                decreases n - i,
            {
                let ghost out0 = out@;
                if i > 0 {
                    out.push(',');
                }
                push_quoted(out, m[i].0.as_str());
                out.push(':');
                proof {
                    vstd::seq::axiom_seq_index_decreases(m@, i as int);
                    assert(decreases_to!(*v => m@[i as int].1));
                }
                push_json_text(out, &m[i].1);
                proof {
                    assert(out@ + members_text(m@, i as int + 1) =~= out0 + members_text(
                        m@,
                        i as int,
                    ));
                }
                i = i + 1;
            }
            out.push('}');
            proof {
                assert(members_text(m@, n as int) =~= Seq::<char>::empty());
                assert((old(out)@ + (seq!['{'] + members_text(m@, 0))).push('}') =~= old(out)@
                    + render_spec(*v));
            }
        },
    }
}

} // verus!
