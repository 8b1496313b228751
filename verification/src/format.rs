//! The display text of a cell.

use vstd::prelude::*;
use crate::model::{Failure, Value, ValueView};
use crate::text::{
    decimal, format_signed, format_unsigned, is_space, signed_decimal, trim, trimmed,
};

verus! {

/// The text of a cell before trimming; a cell without a variant has none.
pub open spec fn raw_text(v: ValueView) -> Option<Seq<char>> {
    match v {
        ValueView::Text(s) => Some(s),
        ValueView::Float(s) => Some(s),
        ValueView::Double(s) => Some(s),
        ValueView::Sint(n) => Some(signed_decimal(n)),
        ValueView::Uint(n) => Some(decimal(n as nat)),
        ValueView::Int64(n) => Some(signed_decimal(n)),
        ValueView::Uint64(n) => Some(decimal(n as nat)),
        ValueView::Sint64(n) => Some(signed_decimal(n)),
        ValueView::Bool(b) => Some(
            if b {
                "true"@
            } else {
                "false"@
            },
        ),
        ValueView::Unset => None,
    }
}

/// The display text of a cell: its raw text without the whitespace around
/// it.
pub open spec fn display_text(v: ValueView) -> Option<Seq<char>> {
    match raw_text(v) {
        Some(s) => Some(trimmed(s)),
        None => None,
    }
}

/// Formats a cell for display.
///
/// Numbers are written as decimal numerals, booleans as `true` or `false`,
/// text as it is; the result is trimmed. A cell without a variant is an
/// error, never an empty text.
pub fn as_str(v: &Value) -> (result: Result<String, Failure>)
    ensures
        match result {
            Ok(s) => {
                &&& display_text(v@) == Some(s@)
                &&& s@.len() > 0 ==> !is_space(s@.first()) && !is_space(s@.last())
            },
            Err(e) => e == Failure::MalformedValue && v@ is Unset,
        },
{
    let raw = match v {
        Value::Text(s) => s.clone(),
        Value::Float(s) => s.clone(),
        Value::Double(s) => s.clone(),
        Value::Sint(n) => format_signed(*n as i64),
        Value::Uint(n) => format_unsigned(*n as u64),
        Value::Int64(n) => format_signed(*n),
        Value::Uint64(n) => format_unsigned(*n),
        Value::Sint64(n) => format_signed(*n),
        Value::Bool(b) => if *b {
            String::from_str("true")
        } else {
            String::from_str("false")
        },
        Value::Unset => {
            return Err(Failure::MalformedValue);
        },
    };
    Ok(trim(raw.as_str()))
}

} // verus!
