//! Which log records are kept: levels by rank, named case-insensitively.

use crate::slug::{ascii_lower, ascii_lowercase};
use crate::text::{same_text, trim, trim_str};
use vstd::prelude::*;

verus! {

/// The rank of a level name, trimmed and taken without regard to ASCII
/// case: `trace` 0, `debug` 1, `info` 2, `warn` or `warning` 3, `error` 4;
/// any other name counts as `info`.
pub open spec fn level_rank(name: Seq<char>) -> u8 {
    let l = ascii_lower(trim(name));
    if l == "trace"@ {
        0
    } else if l == "debug"@ {
        1
    } else if l == "warn"@ || l == "warning"@ {
        3
    } else if l == "error"@ {
        4
    } else {
        2
    }
}

/// The rank of a level name (see `level_rank`).
pub fn level_rank_of(name: &str) -> (r: u8)
    ensures
        r == level_rank(name@),
{
    let t = trim_str(name);
    let l = ascii_lowercase(t.as_str());
    let l = l.as_str();
    if same_text(l, "trace") {
        0
    } else if same_text(l, "debug") {
        1
    } else if same_text(l, "warn") || same_text(l, "warning") {
        3
    } else if same_text(l, "error") {
        4
    } else {
        2
    }
}

/// Whether a record at `level` is kept where the threshold is `threshold`:
/// exactly when its rank is at least the threshold's.
pub fn keeps_record(level: &str, threshold: &str) -> (r: bool)
    ensures
        r == (level_rank(level@) >= level_rank(threshold@)),
{
    level_rank_of(level) >= level_rank_of(threshold)
}

} // verus!
