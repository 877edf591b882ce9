//! The text of the snapshot that the collect-once and collect-loop modes
//! print.
use vstd::prelude::*;

use crate::number::{decimal, decimal_string};
use crate::text::owned;

verus! {

/// An optional count as printed: its decimal digits, or `N/A`.
pub open spec fn spec_fmt_opt(opt: Option<u64>) -> Seq<char> {
    match opt {
        Some(v) => decimal(v as nat),
        None => "N/A"@,
    }
}

/// Format an optional count for the snapshot table.
pub fn fmt_opt(opt: Option<u64>) -> (r: String)
    ensures
        r@ == spec_fmt_opt(opt),
{
    match opt {
        Some(v) => decimal_string(v),
        None => owned("N/A"),
    }
}

} // verus!
