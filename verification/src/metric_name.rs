//! Metric-name helpers shared by the Prometheus renderer and the
//! time-series row builder.
use vstd::prelude::*;
use vstd::string::*;

use crate::text::{chars_of, has_prefix, push_char, starts_with};

verus! {

/// `name` without a known engine prefix (`vllm:` is tried first, then `sglang:`).
pub open spec fn spec_strip_engine_prefix(name: Seq<char>) -> Seq<char> {
    if has_prefix(name, "vllm:"@) {
        name.skip("vllm:"@.len() as int)
    } else if has_prefix(name, "sglang:"@) {
        name.skip("sglang:"@.len() as int)
    } else {
        name
    }
}

/// A char allowed in a Prometheus metric name by this crate: ASCII letters,
/// ASCII digits and the underscore.
pub open spec fn is_name_char(c: char) -> bool {
    ('a' <= c <= 'z') || ('A' <= c <= 'Z') || ('0' <= c <= '9') || c == '_'
}

/// `c`, or an underscore when `c` is not allowed in a metric name.
pub open spec fn sanitize_char(c: char) -> char {
    if is_name_char(c) {
        c
    } else {
        '_'
    }
}

/// The prefix every inference metric name carries.
pub open spec fn inference_prefix() -> Seq<char> {
    "dgmon_inference_"@
}

/// The stored name of a scraped inference metric: the engine prefix is
/// stripped, every char outside `[A-Za-z0-9_]` becomes `_`, and the result is
/// prefixed with `dgmon_inference_`.
pub open spec fn spec_sanitize_metric_name(name: Seq<char>) -> Seq<char> {
    inference_prefix() + spec_strip_engine_prefix(name).map_values(|c: char| sanitize_char(c))
}

/// Whether `c` is an ASCII letter, an ASCII digit or `_`.
pub fn is_name_char_exec(c: char) -> (r: bool)
    ensures
        r == is_name_char(c),
{
    ('a' <= c && c <= 'z') || ('A' <= c && c <= 'Z') || ('0' <= c && c <= '9') || c == '_'
}

/// Strip a known engine prefix (`vllm:` or `sglang:`) from a raw metric name.
/// Returns the name unchanged when no engine prefix is present.
pub fn strip_engine_prefix(name: &str) -> (r: &str)
    ensures
        r@ == spec_strip_engine_prefix(name@),
{
    let cs = chars_of(name);
    let vllm = chars_of("vllm:");
    if starts_with(&cs, &vllm) {
        return name.substring_char(vllm.len(), cs.len());
    }
    let sglang = chars_of("sglang:");
    if starts_with(&cs, &sglang) {
        return name.substring_char(sglang.len(), cs.len());
    }
    name
}

/// Convert a scraped metric name into a valid Prometheus metric name.
/// Replaces characters that are not alphanumeric or underscore with
/// underscores, strips a known engine prefix (`vllm:` or `sglang:`), and
/// prefixes with `dgmon_inference_` to avoid collisions.
pub fn sanitize_metric_name(name: &str) -> (r: String)
    ensures
        r@ == spec_sanitize_metric_name(name@),
{
    let stripped = strip_engine_prefix(name);
    let cs = chars_of(stripped);
    let mut out = String::from_str("dgmon_inference_");
    let mut i: usize = 0;
    while i < cs.len()
        invariant
            i <= cs.len(),
            cs@ == spec_strip_engine_prefix(name@),
            out@ == inference_prefix() + cs@.take(i as int).map_values(|c: char| sanitize_char(c)),
        decreases cs.len() - i,
    {
        let c = cs[i];
        let d = if is_name_char_exec(c) {
            c
        } else {
            '_'
        };
        push_char(&mut out, d);
        assert(cs@.take(i + 1).map_values(|c: char| sanitize_char(c)) =~= cs@.take(
            i as int,
        ).map_values(|c: char| sanitize_char(c)).push(sanitize_char(c)));
        i = i + 1;
    }
    assert(cs@.take(cs@.len() as int) =~= cs@);
    out
}

} // verus!
