//! Whether the generated SQL is traced.

use vstd::prelude::*;
use crate::text::str_eq;

verus! {

/// Tracing is on exactly when the `PARSQL_TRACE` environment variable is
/// set to `1`; `value` is the variable's value, if it is set.
pub fn trace_enabled(value: Option<&str>) -> (r: bool)
    ensures
        r == (value matches Some(v) && v@ == seq!['1']),
{
    match value {
        Some(v) => {
            let on = str_eq(v, "1");
            proof { reveal_strlit("1"); assert("1"@ =~= seq!['1']); }
            on
        },
        None => false,
    }
}

} // verus!
