use vstd::prelude::*;

use std::str::FromStr;

verus! {

/// Whether `serde_json::Number::from_str` accepts this text, i.e. whether it
/// is a JSON number; the answer depends on the characters alone.
pub uninterp spec fn is_numeric_text(s: Seq<char>) -> bool;

/// A value whose sign orders the numbers written in `a` and `b`, in the
/// 64-bit float order that `serde_json::Number::as_f64` induces; defined only
/// where both texts are numeric.  The result depends on the characters alone.
pub uninterp spec fn numeric_cmp(a: Seq<char>, b: Seq<char>) -> int;

/// How two number texts compare, or which of them failed to parse.
pub enum NumericOrder {
    LeftNotNumeric,
    RightNotNumeric,
    Less,
    Equal,
    Greater,
}

/// Relies on `serde_json::Number::from_str` to parse each text and on
/// `Number::as_f64` for the 64-bit values compared.  A numeric text is
/// therefore one in JSON-number syntax: forms like `.5`, `+1`, `3.`, `NaN`
/// or `inf` are not numbers here.  Parsed JSON numbers are always finite, so
/// the comparison is total.  The two steps cannot stand in separate trusted
/// items because this crate's verified code cannot carry a float between
/// them.
#[verifier::external_body]
pub(crate) fn compare_numeric_texts(a: &str, b: &str) -> (r: NumericOrder)
    ensures
        (r is LeftNotNumeric) <==> !is_numeric_text(a@),
        (r is RightNotNumeric) <==> (is_numeric_text(a@) && !is_numeric_text(b@)),
        (is_numeric_text(a@) && is_numeric_text(b@)) ==> {
            &&& ((r is Less) <==> numeric_cmp(a@, b@) < 0)
            &&& ((r is Equal) <==> numeric_cmp(a@, b@) == 0)
            &&& ((r is Greater) <==> numeric_cmp(a@, b@) > 0)
        },
{
    let x = match serde_json::Number::from_str(a) { Ok(n) => n, Err(_) => return NumericOrder::LeftNotNumeric };
    let y = match serde_json::Number::from_str(b) { Ok(n) => n, Err(_) => return NumericOrder::RightNotNumeric };
    let p = x.as_f64().unwrap_or_default();
    let q = y.as_f64().unwrap_or_default();
    if p < q {
        NumericOrder::Less
    } else if q < p {
        NumericOrder::Greater
    } else {
        NumericOrder::Equal
    }
}

} // verus!
