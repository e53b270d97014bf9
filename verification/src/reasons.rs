//! What a reader says of JSON that it cannot read.

use crate::http_base::{quote, quoted};
use crate::json::{print_json, serde_print, Json, JsonView};
use crate::text::{decimal, decimal_of, signed_decimal, signed_decimal_of};
use vstd::prelude::*;
use vstd::string::*;

verus! {

/// What a value is called where another kind was expected.
pub open spec fn unexpected(v: JsonView) -> Seq<char> {
    match v {
        JsonView::Null => "null"@,
        JsonView::Bool(b) => if b {
            "boolean `true`"@
        } else {
            "boolean `false`"@
        },
        JsonView::Num(_) => match (v.as_i64(), v.as_u64()) {
            (Some(n), _) => "integer `"@ + signed_decimal(n as int) + "`"@,
            (None, Some(n)) => "integer `"@ + signed_decimal(n as int) + "`"@,
            (None, None) => "floating point `"@ + serde_print(v) + "`"@,
        },
        JsonView::Str(s) => "string "@ + quoted(s),
        JsonView::Arr(_) => "sequence"@,
        JsonView::Obj(_) => "map"@,
    }
}

/// The message for a value of another kind than was expected.
pub open spec fn invalid_type(v: JsonView, expected: Seq<char>) -> Seq<char> {
    "invalid type: "@ + unexpected(v) + ", expected "@ + expected
}

/// The message for a member that is missing.
pub open spec fn missing_field(name: Seq<char>) -> Seq<char> {
    "missing field `"@ + name + "`"@
}

/// The message for a list of another length than was expected.
pub open spec fn invalid_length(n: nat, expected: Seq<char>) -> Seq<char> {
    "invalid length "@ + decimal(n) + ", expected "@ + expected
}

/// The message for a member that occurs twice.
pub open spec fn duplicate_field(name: Seq<char>) -> Seq<char> {
    "duplicate field `"@ + name + "`"@
}

/// What a value is called where another kind was expected.
fn unexpected_text(v: &Json) -> (r: String)
    ensures
        r@ == unexpected(v@),
{
    match v.as_i64() {
        Some(n) => {
            return in_ticks("integer `", signed_decimal_of(n).as_str());
        },
        None => {},
    }
    match v.as_u64() {
        Some(n) => {
            return in_ticks("integer `", decimal_of(n).as_str());
        },
        None => {},
    }
    match v {
        Json::Null => "null".to_owned(),
        Json::Bool(b) => if *b {
            "boolean `true`".to_owned()
        } else {
            "boolean `false`".to_owned()
        },
        Json::Str(s) => {
            let mut out: String = "string ".to_owned();
            out.append(quote(s.as_str()).as_str());
            out
        },
        Json::Arr(_) => "sequence".to_owned(),
        Json::Obj(_) => "map".to_owned(),
        _ => in_ticks("floating point `", print_json(v).as_str()),
    }
}

/// A text between an opening and a tick.
pub fn in_ticks(open: &str, s: &str) -> (r: String)
    ensures
        r@ == open@ + s@ + "`"@,
{
    let mut out: String = open.to_owned();
    out.append(s);
    out.append("`");
    out
}

/// The message for a value of another kind than was expected.
pub fn wrong_type(v: &Json, expected: &str) -> (r: String)
    ensures
        r@ == invalid_type(v@, expected@),
{
    let mut out: String = "invalid type: ".to_owned();
    out.append(unexpected_text(v).as_str());
    out.append(", expected ");
    out.append(expected);
    out
}

/// The message for a list of another length than was expected.
pub fn wrong_length(n: usize, expected: &str) -> (r: String)
    ensures
        r@ == invalid_length(n as nat, expected@),
{
    let mut out: String = "invalid length ".to_owned();
    out.append(decimal_of(n as u64).as_str());
    out.append(", expected ");
    out.append(expected);
    out
}

/// The message for a member that is missing.
pub fn missing(name: &str) -> (r: String)
    ensures
        r@ == missing_field(name@),
{
    in_ticks("missing field `", name)
}

/// The message for a member that occurs twice.
pub fn twice(name: &str) -> (r: String)
    ensures
        r@ == duplicate_field(name@),
{
    in_ticks("duplicate field `", name)
}

} // verus!
