//! The value coercer: a JSON scalar plus a declared CQL type tag become a
//! native-typed bound parameter, or a precise diagnostic.
//!
//! Coercion is total: every `(value, tag)` pair has exactly one outcome,
//! written down by `spec_coerce`.  Numeric values that do not fit the
//! declared width, values of the wrong JSON kind, and tags outside the
//! supported set all fail with the tag-specific error object.

use vstd::prelude::*;
use vstd::string::{StringExecFns, StrSliceExecFns};
use std::str::FromStr;
use crate::json::JsonVal;
use crate::errors::ErrorBody;
use crate::render::{render_spec, render_json};
use crate::text::{int_text, uint_text, push_int, push_uint};

verus! {

/// A bound statement parameter, one variant per supported CQL type.
/// Floating-point values are carried by their JSON source text and
/// narrowed only at the database boundary; a decimal is carried by its
/// textual form, checked to parse.
#[derive(Debug, PartialEq)]
pub enum CqlParam {
    Boolean(bool),
    Int(i32),
    BigInt(i64),
    SmallInt(i16),
    TinyInt(i8),
    Double(String),
    Float(String),
    Decimal(String),
    Text(String),
    Empty,
}

/// The mathematical shadow of `CqlParam`: text fields read as character
/// sequences.
pub enum SpecParam {
    Boolean(bool),
    Int(i32),
    BigInt(i64),
    SmallInt(i16),
    TinyInt(i8),
    Double(Seq<char>),
    Float(Seq<char>),
    Decimal(Seq<char>),
    Text(Seq<char>),
    Empty,
}

impl View for CqlParam {
    type V = SpecParam;

    open spec fn view(&self) -> SpecParam {
        match *self {
            CqlParam::Boolean(b) => SpecParam::Boolean(b),
            CqlParam::Int(i) => SpecParam::Int(i),
            CqlParam::BigInt(i) => SpecParam::BigInt(i),
            CqlParam::SmallInt(i) => SpecParam::SmallInt(i),
            CqlParam::TinyInt(i) => SpecParam::TinyInt(i),
            CqlParam::Double(t) => SpecParam::Double(t@),
            CqlParam::Float(t) => SpecParam::Float(t@),
            CqlParam::Decimal(t) => SpecParam::Decimal(t@),
            CqlParam::Text(t) => SpecParam::Text(t@),
            CqlParam::Empty => SpecParam::Empty,
        }
    }
}

/// A coercion failure, as the contracts speak of it.
pub struct SpecFail {
    pub status: u16,
    pub message: Seq<char>,
    pub error_message: Seq<char>,
    pub custom_error_message: Seq<char>,
}

/// A 500-class failure whose `message` is the context line.
pub open spec fn fail500(message: Seq<char>, tag: Seq<char>, custom: Seq<char>) -> SpecFail {
    SpecFail { status: 500, message, error_message: tag, custom_error_message: custom }
}

/// The abstraction of an executable error object.
pub open spec fn fail_view(e: ErrorBody) -> SpecFail {
    SpecFail {
        status: e.status_code,
        message: e.message@,
        error_message: e.error_message@,
        custom_error_message: e.custom_error_message@,
    }
}

/// The abstraction of an executable coercion result.
pub open spec fn outcome_view(r: Result<CqlParam, ErrorBody>) -> Result<SpecParam, SpecFail> {
    match r {
        Ok(p) => Ok(p@),
        Err(e) => Err(fail_view(e)),
    }
}

/// Names what `bigdecimal::BigDecimal::from_str` answers for a string:
/// acceptance, or the rendering of its parse error.
pub uninterp spec fn decimal_of(s: Seq<char>) -> Result<(), Seq<char>>;

/// True of a decimal digit character.
pub open spec fn is_digit_char(c: char) -> bool {
    48 <= (c as u32) && (c as u32) <= 57
}

/// The first position of an exponent mark (`e` or `E`) at or after `i`.
pub open spec fn spec_exp_mark(s: Seq<char>, i: int) -> Option<int>
    decreases s.len() - i,
{
    if i < 0 || i >= s.len() {
        None
    } else if s[i] == 'e' || s[i] == 'E' {
        Some(i)
    } else {
        spec_exp_mark(s, i + 1)
    }
}

/// Every character from `i` to the end is a decimal digit.
pub open spec fn all_digits_from(s: Seq<char>, i: int) -> bool
    decreases s.len() - i,
{
    if i < 0 || i >= s.len() {
        true
    } else {
        is_digit_char(s[i]) && all_digits_from(s, i + 1)
    }
}

/// The first position at or after `i` that does not hold `'0'`.
pub open spec fn spec_skip_zeros(s: Seq<char>, i: int) -> int
    decreases s.len() - i,
{
    if i < 0 || i >= s.len() {
        i
    } else if s[i] == '0' {
        spec_skip_zeros(s, i + 1)
    } else {
        i
    }
}

/// The text carries no exponent of nineteen or more significant digits.
/// An exponent that large would parse into the extreme of the 64-bit
/// range, where the outside parser's scale arithmetic can overflow.
pub open spec fn decimal_exp_ok(s: Seq<char>) -> bool {
    match spec_exp_mark(s, 0) {
        None => true,
        Some(m) => {
            let b = if m + 1 < s.len() && (s[m + 1] == '+' || s[m + 1] == '-') {
                m + 2
            } else {
                m + 1
            };
            let z = spec_skip_zeros(s, b);
            !(s.len() - z > 18 && all_digits_from(s, b))
        },
    }
}

/// Decide `decimal_exp_ok` of a piece of text.
#[verifier::loop_isolation(false)]
fn decimal_exponent_ok(s: &str) -> (r: bool)
    ensures
        r == decimal_exp_ok(s@),
{
    let n = s.unicode_len();
    let mut i: usize = 0;
    let mut found = false;
    while i < n && !found
        invariant
            i <= n,
            n == s@.len(),
            !found ==> spec_exp_mark(s@, 0) == spec_exp_mark(s@, i as int),
            found ==> i < n && spec_exp_mark(s@, 0) == Some(i as int),
        decreases n - i, (if found {
            0int
        } else {
            1int
        }),
    {
        let c = s.get_char(i);
        if c == 'e' || c == 'E' {
            found = true;
        } else {
            i = i + 1;
        }
    }
    if !found {
        return true;
    }
    let m = i;
    let mut b = m + 1;
    if b < n {
        let c = s.get_char(b);
        if c == '+' || c == '-' {
            b = b + 1;
        }
    }
    let mut k = b;
    while k < n
        invariant
            b <= k <= n,
            all_digits_from(s@, b as int) == all_digits_from(s@, k as int),
        decreases n - k,
    {
        let c = s.get_char(k);
        if !(('0' as u32) <= (c as u32) && (c as u32) <= ('9' as u32)) {
            proof {
                assert(!all_digits_from(s@, k as int));
            }
            return true;
        }
        k = k + 1;
    }
    let mut z = b;
    while z < n && s.get_char(z) == '0'
        invariant
            b <= z <= n,
            spec_skip_zeros(s@, b as int) == spec_skip_zeros(s@, z as int),
        decreases n - z,
    {
        z = z + 1;
    }
    proof {
        assert(spec_skip_zeros(s@, z as int) == z as int);
    }
    !(n - z > 18)
}

/// Relies on `bigdecimal::BigDecimal::from_str`: whether a string parses
/// as an arbitrary-precision decimal, and what the parse error says, are
/// functions of the string alone.  The parser subtracts the parsed
/// exponent from the decimal-point offset in 64-bit arithmetic, so texts
/// whose exponent could reach that range are kept out by `requires`.
#[verifier::external_body]
fn check_decimal(s: &str) -> (r: Result<(), String>)
    requires
        decimal_exp_ok(s@),
    ensures
        (r is Ok) == (decimal_of(s@) is Ok),
        (r matches Err(e) ==> decimal_of(s@) == Err::<(), Seq<char>>(e@)),
{
    match bigdecimal::BigDecimal::from_str(s) {
        Ok(_) => Ok(()),
        Err(e) => Err(e.to_string()),
    }
}

/// What the `Boolean` tag accepts: exactly a JSON boolean.
pub open spec fn spec_to_boolean(v: JsonVal, ctx: Seq<char>) -> Result<SpecParam, SpecFail> {
    match v {
        JsonVal::Bool(b) => Ok(SpecParam::Boolean(b)),
        _ => Err(fail500(ctx, "value_is_not_bool"@, "value_is_not_bool"@)),
    }
}

/// What the `Double` tag accepts: any JSON number, carried by its
/// decimal text.
pub open spec fn spec_to_double(v: JsonVal, ctx: Seq<char>) -> Result<SpecParam, SpecFail> {
    match v {
        JsonVal::Float(t) => Ok(SpecParam::Double(t@)),
        JsonVal::Int(i) => Ok(SpecParam::Double(int_text(i as int))),
        JsonVal::Uint(u) => Ok(SpecParam::Double(uint_text(u as nat))),
        _ => Err(fail500(ctx, "value_is_not_f64"@, "value_is_not_f64"@)),
    }
}

/// What the `Float` tag accepts: any JSON number, carried by its decimal
/// text and narrowed only at the database boundary.
pub open spec fn spec_to_float(v: JsonVal, ctx: Seq<char>) -> Result<SpecParam, SpecFail> {
    match v {
        JsonVal::Float(t) => Ok(SpecParam::Float(t@)),
        JsonVal::Int(i) => Ok(SpecParam::Float(int_text(i as int))),
        JsonVal::Uint(u) => Ok(SpecParam::Float(uint_text(u as nat))),
        _ => Err(fail500(ctx, "value_is_not_f64"@, "value_is_not_f64"@)),
    }
}

/// The rendering of std's out-of-range integer conversion error.
pub open spec fn out_of_range_text() -> Seq<char> {
    "out of range integral type conversion attempted"@
}

/// What the `Int` tag accepts: an integer that fits 32 signed bits.
pub open spec fn spec_to_int(v: JsonVal, ctx: Seq<char>) -> Result<SpecParam, SpecFail> {
    match v {
        JsonVal::Int(i) => if -0x8000_0000i64 <= i && i <= 0x7fff_ffffi64 {
            Ok(SpecParam::Int(i as i32))
        } else {
            Err(fail500(ctx, "conversion_error_i64_i32"@, out_of_range_text()))
        },
        _ => Err(fail500(ctx, "value_is_not_i64"@, "value_is_not_i64"@)),
    }
}

/// What the `SmallInt` tag accepts: an integer that fits 16 signed bits.
pub open spec fn spec_to_smallint(v: JsonVal, ctx: Seq<char>) -> Result<SpecParam, SpecFail> {
    match v {
        JsonVal::Int(i) => if -0x8000i64 <= i && i <= 0x7fffi64 {
            Ok(SpecParam::SmallInt(i as i16))
        } else {
            Err(fail500(ctx, "conversion_error_i64_i16"@, out_of_range_text()))
        },
        _ => Err(fail500(ctx, "value_is_not_i64"@, "value_is_not_i64"@)),
    }
}

/// What the `TinyInt` tag accepts: an integer that fits 8 signed bits.
pub open spec fn spec_to_tinyint(v: JsonVal, ctx: Seq<char>) -> Result<SpecParam, SpecFail> {
    match v {
        JsonVal::Int(i) => if -0x80i64 <= i && i <= 0x7fi64 {
            Ok(SpecParam::TinyInt(i as i8))
        } else {
            Err(fail500(ctx, "conversion_error_i64_i8"@, out_of_range_text()))
        },
        _ => Err(fail500(ctx, "value_is_not_i64"@, "value_is_not_i64"@)),
    }
}

/// What the `BigInt` tag accepts: any integer representable as `i64`.
pub open spec fn spec_to_bigint(v: JsonVal, ctx: Seq<char>) -> Result<SpecParam, SpecFail> {
    match v {
        JsonVal::Int(i) => Ok(SpecParam::BigInt(i)),
        _ => Err(fail500(ctx, "value_is_not_i64"@, "value_is_not_i64"@)),
    }
}

/// What the `Text` tag accepts: exactly a JSON string, used as it stands.
pub open spec fn spec_to_text(v: JsonVal) -> Result<SpecParam, SpecFail> {
    match v {
        JsonVal::Str(s) => Ok(SpecParam::Text(s@)),
        _ => Err(fail500("value_is_not_string"@, "value_is_not_string"@, "value_is_not_string"@)),
    }
}

/// What the `Map` tag does: the whole value re-serialized and stored as
/// text.
pub open spec fn spec_to_map(v: JsonVal) -> Result<SpecParam, SpecFail> {
    Ok(SpecParam::Text(render_spec(v)))
}

/// What the `Empty` tag accepts: exactly JSON null.
pub open spec fn spec_to_empty(v: JsonVal, ctx: Seq<char>) -> Result<SpecParam, SpecFail> {
    match v {
        JsonVal::Null => Ok(SpecParam::Empty),
        _ => Err(fail500(ctx, "value_is_not_null"@, "value_is_not_null"@)),
    }
}

/// What the `Decimal` tag does: the value's textual form parsed as an
/// arbitrary-precision decimal.  A text whose exponent the parser's
/// 64-bit scale arithmetic could not carry is refused outright.
pub open spec fn spec_to_decimal(v: JsonVal, ctx: Seq<char>) -> Result<SpecParam, SpecFail> {
    if !decimal_exp_ok(render_spec(v)) {
        Err(fail500(ctx, "decimal_exponent_out_of_range"@, "decimal_exponent_out_of_range"@))
    } else {
        match decimal_of(render_spec(v)) {
            Ok(_) => Ok(SpecParam::Decimal(render_spec(v))),
            Err(e) => Err(fail500(ctx, e, e)),
        }
    }
}

/// The one outcome of coercing `v` under the tag `tag` with the context
/// line `ctx`: a typed parameter, or a 500-class failure.
pub open spec fn spec_coerce(v: JsonVal, tag: Seq<char>, ctx: Seq<char>) -> Result<
    SpecParam,
    SpecFail,
> {
    if tag == "Boolean"@ {
        spec_to_boolean(v, ctx)
    } else if tag == "Decimal"@ {
        spec_to_decimal(v, ctx)
    } else if tag == "Double"@ {
        spec_to_double(v, ctx)
    } else if tag == "Empty"@ {
        spec_to_empty(v, ctx)
    } else if tag == "Float"@ {
        spec_to_float(v, ctx)
    } else if tag == "Int"@ {
        spec_to_int(v, ctx)
    } else if tag == "BigInt"@ {
        spec_to_bigint(v, ctx)
    } else if tag == "Text"@ {
        spec_to_text(v)
    } else if tag == "Map"@ {
        spec_to_map(v)
    } else if tag == "SmallInt"@ {
        spec_to_smallint(v, ctx)
    } else if tag == "TinyInt"@ {
        spec_to_tinyint(v, ctx)
    } else {
        Err(
            fail500(
                ctx,
                "conversion_for_type_"@ + tag + "_not_implemented"@,
                "conversion_for_type_"@ + tag + "_not_implemented"@,
            ),
        )
    }
}

/// Coercion is deterministic: two results that both answer the same
/// `(value, tag, context)` triple are the same outcome.  Together with
/// `spec_coerce` being a total function of that triple, this is the
/// totality-and-determinism property of the coercer.
pub proof fn lemma_coercion_deterministic(
    v: JsonVal,
    tag: Seq<char>,
    ctx: Seq<char>,
    r1: Result<CqlParam, ErrorBody>,
    r2: Result<CqlParam, ErrorBody>,
)
    requires
        outcome_view(r1) == spec_coerce(v, tag, ctx),
        outcome_view(r2) == spec_coerce(v, tag, ctx),
    ensures
        outcome_view(r1) == outcome_view(r2),
{
}

/// Build the 500-class error object whose tag and detail are the same
/// short string.
fn simple_fail(message: &String, tag: &str) -> (r: ErrorBody)
    ensures
        r.status_code == 500,
        r.message@ == message@,
        r.error_message@ == tag@,
        r.custom_error_message@ == tag@,
{
    ErrorBody {
        status_code: 500,
        message: message.clone(),
        error_message: tag.to_owned(),
        custom_error_message: tag.to_owned(),
    }
}

/// Coerce under the `Boolean` tag.
pub fn convert_json_value_to_boolean(i_json_value: &JsonVal, i_logging_str: &String) -> (r: Result<
    CqlParam,
    ErrorBody,
>)
    ensures
        outcome_view(r) == spec_to_boolean(*i_json_value, i_logging_str@),
{
    if !i_json_value.is_boolean() {
        return Err(simple_fail(i_logging_str, "value_is_not_bool"));
    }
    let r_value = match i_json_value.as_bool() {
        Some(x) => x,
        None => {
            return Err(simple_fail(i_logging_str, "boolean_is_none"));
        },
    };
    Ok(CqlParam::Boolean(r_value))
}

/// The decimal text of a number value: a floating-point number's own
/// source text, an integer's decimal writing.
fn number_text(i_json_value: &JsonVal) -> (r: Option<String>)
    ensures
        (match *i_json_value {
            JsonVal::Float(t) => r is Some && r->0@ == t@,
            JsonVal::Int(i) => r is Some && r->0@ == int_text(i as int),
            JsonVal::Uint(u) => r is Some && r->0@ == uint_text(u as nat),
            _ => r is None,
        }),
{
    match i_json_value {
        JsonVal::Float(t) => Some(t.clone()),
        JsonVal::Int(i) => {
            let mut t = String::new();
            push_int(&mut t, *i);
            proof {
                assert(Seq::<char>::empty() + int_text(*i as int) =~= int_text(*i as int));
            }
            Some(t)
        },
        JsonVal::Uint(u) => {
            let mut t = String::new();
            push_uint(&mut t, *u);
            proof {
                assert(Seq::<char>::empty() + uint_text(*u as nat) =~= uint_text(*u as nat));
            }
            Some(t)
        },
        _ => None,
    }
}

/// Coerce under the `Double` tag: any JSON number, by its decimal text.
pub fn convert_json_value_to_double(i_json_value: &JsonVal, i_logging_str: &String) -> (r: Result<
    CqlParam,
    ErrorBody,
>)
    ensures
        outcome_view(r) == spec_to_double(*i_json_value, i_logging_str@),
{
    match number_text(i_json_value) {
        Some(t) => Ok(CqlParam::Double(t)),
        None => Err(simple_fail(i_logging_str, "value_is_not_f64")),
    }
}

/// Coerce under the `Float` tag: any JSON number, by its decimal text,
/// narrowed only at the database boundary.
pub fn convert_json_value_to_float(i_json_value: &JsonVal, i_logging_str: &String) -> (r: Result<
    CqlParam,
    ErrorBody,
>)
    ensures
        outcome_view(r) == spec_to_float(*i_json_value, i_logging_str@),
{
    match number_text(i_json_value) {
        Some(t) => Ok(CqlParam::Float(t)),
        None => Err(simple_fail(i_logging_str, "value_is_not_f64")),
    }
}

/// Coerce under the `Int` tag.
pub fn convert_json_value_to_int(i_json_value: &JsonVal, i_logging_str: &String) -> (r: Result<
    CqlParam,
    ErrorBody,
>)
    ensures
        outcome_view(r) == spec_to_int(*i_json_value, i_logging_str@),
{
    if !i_json_value.is_i64() {
        return Err(simple_fail(i_logging_str, "value_is_not_i64"));
    }
    let integer_value = match i_json_value.as_i64() {
        Some(x) => x,
        None => {
            return Err(simple_fail(i_logging_str, "int_is_none"));
        },
    };
    if -0x8000_0000i64 <= integer_value && integer_value <= 0x7fff_ffffi64 {
        Ok(CqlParam::Int(integer_value as i32))
    } else {
        Err(
            ErrorBody {
                status_code: 500,
                message: i_logging_str.clone(),
                error_message: "conversion_error_i64_i32".to_owned(),
                custom_error_message: "out of range integral type conversion attempted".to_owned(),
            },
        )
    }
}

/// Coerce under the `SmallInt` tag.
pub fn convert_json_value_to_smallint(i_json_value: &JsonVal, i_logging_str: &String) -> (r:
    Result<CqlParam, ErrorBody>)
    ensures
        outcome_view(r) == spec_to_smallint(*i_json_value, i_logging_str@),
{
    if !i_json_value.is_i64() {
        return Err(simple_fail(i_logging_str, "value_is_not_i64"));
    }
    let integer_value = match i_json_value.as_i64() {
        Some(x) => x,
        None => {
            return Err(simple_fail(i_logging_str, "int_is_none"));
        },
    };
    if -0x8000i64 <= integer_value && integer_value <= 0x7fffi64 {
        Ok(CqlParam::SmallInt(integer_value as i16))
    } else {
        Err(
            ErrorBody {
                status_code: 500,
                message: i_logging_str.clone(),
                error_message: "conversion_error_i64_i16".to_owned(),
                custom_error_message: "out of range integral type conversion attempted".to_owned(),
            },
        )
    }
}

/// Coerce under the `TinyInt` tag.
pub fn convert_json_value_to_tinyint(i_json_value: &JsonVal, i_logging_str: &String) -> (r: Result<
    CqlParam,
    ErrorBody,
>)
    ensures
        outcome_view(r) == spec_to_tinyint(*i_json_value, i_logging_str@),
{
    if !i_json_value.is_i64() {
        return Err(simple_fail(i_logging_str, "value_is_not_i64"));
    }
    let integer_value = match i_json_value.as_i64() {
        Some(x) => x,
        None => {
            return Err(simple_fail(i_logging_str, "int_is_none"));
        },
    };
    if -0x80i64 <= integer_value && integer_value <= 0x7fi64 {
        Ok(CqlParam::TinyInt(integer_value as i8))
    } else {
        Err(
            ErrorBody {
                status_code: 500,
                message: i_logging_str.clone(),
                error_message: "conversion_error_i64_i8".to_owned(),
                custom_error_message: "out of range integral type conversion attempted".to_owned(),
            },
        )
    }
}

/// Coerce under the `BigInt` tag.
pub fn convert_json_value_to_bigint(i_json_value: &JsonVal, i_logging_str: &String) -> (r: Result<
    CqlParam,
    ErrorBody,
>)
    ensures
        outcome_view(r) == spec_to_bigint(*i_json_value, i_logging_str@),
{
    if !i_json_value.is_i64() {
        return Err(simple_fail(i_logging_str, "value_is_not_i64"));
    }
    match i_json_value.as_i64() {
        Some(x) => Ok(CqlParam::BigInt(x)),
        None => Err(simple_fail(i_logging_str, "int_is_none")),
    }
}

/// Coerce under the `Text` tag: the string value as it stands.
pub fn convert_json_value_to_text_as_str(i_json_value: &JsonVal) -> (r: Result<
    CqlParam,
    ErrorBody,
>)
    ensures
        outcome_view(r) == spec_to_text(*i_json_value),
{
    match i_json_value {
        JsonVal::Str(s) => Ok(CqlParam::Text(s.clone())),
        _ => {
            let t = "value_is_not_string".to_owned();
            Err(simple_fail(&t, "value_is_not_string"))
        },
    }
}

/// Coerce under the `Map` tag: the whole JSON re-serialized as text.
pub fn convert_json_value_to_text(i_json_value: &JsonVal) -> (r: Result<CqlParam, ErrorBody>)
    ensures
        outcome_view(r) == spec_to_map(*i_json_value),
{
    let r_value: String = render_json(i_json_value);
    Ok(CqlParam::Text(r_value))
}

/// Coerce under the `Empty` tag.
pub fn convert_json_value_to_empty(i_json_value: &JsonVal, i_logging_str: &String) -> (r: Result<
    CqlParam,
    ErrorBody,
>)
    ensures
        outcome_view(r) == spec_to_empty(*i_json_value, i_logging_str@),
{
    if !i_json_value.is_null() {
        return Err(simple_fail(i_logging_str, "value_is_not_null"));
    }
    Ok(CqlParam::Empty)
}

/// Coerce under the `Decimal` tag: the value's textual form parsed as an
/// arbitrary-precision decimal.
pub fn convert_json_value_to_decimal(i_json_value: &JsonVal, i_logging_str: &String) -> (r: Result<
    CqlParam,
    ErrorBody,
>)
    ensures
        outcome_view(r) == spec_to_decimal(*i_json_value, i_logging_str@),
{
    let rendered: String = render_json(i_json_value);
    if !decimal_exponent_ok(rendered.as_str()) {
        return Err(simple_fail(i_logging_str, "decimal_exponent_out_of_range"));
    }
    match check_decimal(rendered.as_str()) {
        Ok(_) => Ok(CqlParam::Decimal(rendered)),
        Err(e) => Err(
            ErrorBody {
                status_code: 500,
                message: i_logging_str.clone(),
                error_message: e.clone(),
                custom_error_message: e,
            },
        ),
    }
}

/// Coerce one JSON value under a CQL type tag, with the context line that
/// failures carry as their message.
pub fn cast_json_value_to_scylla_value(
    i_json_value: &JsonVal,
    i_scylla_value_type: String,
    i_logging_str: String,
) -> (r: Result<CqlParam, ErrorBody>)
    ensures
        outcome_view(r) == spec_coerce(*i_json_value, i_scylla_value_type@, i_logging_str@),
{
    if i_scylla_value_type == "Boolean".to_owned() {
        convert_json_value_to_boolean(i_json_value, &i_logging_str)
    } else if i_scylla_value_type == "Decimal".to_owned() {
        convert_json_value_to_decimal(i_json_value, &i_logging_str)
    } else if i_scylla_value_type == "Double".to_owned() {
        convert_json_value_to_double(i_json_value, &i_logging_str)
    } else if i_scylla_value_type == "Empty".to_owned() {
        convert_json_value_to_empty(i_json_value, &i_logging_str)
    } else if i_scylla_value_type == "Float".to_owned() {
        convert_json_value_to_float(i_json_value, &i_logging_str)
    } else if i_scylla_value_type == "Int".to_owned() {
        convert_json_value_to_int(i_json_value, &i_logging_str)
    } else if i_scylla_value_type == "BigInt".to_owned() {
        convert_json_value_to_bigint(i_json_value, &i_logging_str)
    } else if i_scylla_value_type == "Text".to_owned() {
        convert_json_value_to_text_as_str(i_json_value)
    } else if i_scylla_value_type == "Map".to_owned() {
        convert_json_value_to_text(i_json_value)
    } else if i_scylla_value_type == "SmallInt".to_owned() {
        convert_json_value_to_smallint(i_json_value, &i_logging_str)
    } else if i_scylla_value_type == "TinyInt".to_owned() {
        convert_json_value_to_tinyint(i_json_value, &i_logging_str)
    } else {
        let mut full_tag = "conversion_for_type_".to_owned();
        full_tag.append(i_scylla_value_type.as_str());
        full_tag.append("_not_implemented");
        Err(
            ErrorBody {
                status_code: 500,
                message: i_logging_str,
                error_message: full_tag.clone(),
                custom_error_message: full_tag,
            },
        )
    }
}

} // verus!
