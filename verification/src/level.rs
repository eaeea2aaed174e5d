//! Severity levels, their order, and the filters that let a level pass.

use slog::{FilterLevel, Level};
use vstd::prelude::*;

verus! {

/// `slog::Level`, the severity of a record or of a line: an enum of six
/// variants without fields, from `Critical` to `Trace`.
#[verifier::external_type_specification]
pub struct ExLevel(Level);

/// `slog::FilterLevel`, a threshold on severity: `Off` and then the six
/// levels, from `Critical` to `Trace`.
#[verifier::external_type_specification]
pub struct ExFilterLevel(FilterLevel);

/// `Clone` for `slog::Level`, which is `Copy`: the clone is the level itself.
pub assume_specification[ <Level as Clone>::clone ](level: &Level) -> (copy: Level)
    ensures
        copy == *level,
;

/// Position of a level in the severity order: `Critical` is 1 and the most
/// severe, `Trace` is 6 and the least.
pub open spec fn level_rank(level: Level) -> int {
    match level {
        Level::Critical => 1,
        Level::Error => 2,
        Level::Warning => 3,
        Level::Info => 4,
        Level::Debug => 5,
        Level::Trace => 6,
    }
}

/// Position of a threshold: `Off` is 0, below every level; each other
/// threshold has the rank of the level it is named after.
pub open spec fn threshold_rank(threshold: FilterLevel) -> int {
    match threshold {
        FilterLevel::Off => 0,
        FilterLevel::Critical => 1,
        FilterLevel::Error => 2,
        FilterLevel::Warning => 3,
        FilterLevel::Info => 4,
        FilterLevel::Debug => 5,
        FilterLevel::Trace => 6,
    }
}

/// Whether a line of the given level is emitted under a threshold: it is
/// when the level is at least as severe as the threshold.
pub open spec fn passes(filter: FilterLevel, level: Level) -> bool {
    threshold_rank(filter) >= level_rank(level)
}

/// `slog::FilterLevel::accepts`: a threshold accepts a level exactly when the
/// level is at least as severe as the threshold, that is when the level's
/// rank is not above the threshold's.
pub assume_specification[ FilterLevel::accepts ](threshold: FilterLevel, level: Level) -> (accepted:
    bool)
    ensures
        accepted == passes(threshold, level),
;

/// The single letter that opens a line of the given level: `C`, `E`, `W` and
/// `I` for the four upper levels, `V` (verbose) for `Debug` and `Trace`.
pub open spec fn level_letter(level: Level) -> char {
    match level {
        Level::Critical => 'C',
        Level::Error => 'E',
        Level::Warning => 'W',
        Level::Info => 'I',
        Level::Debug => 'V',
        Level::Trace => 'V',
    }
}

/// Computes the letter that opens a line of the given level.
pub fn severity_letter(level: Level) -> (letter: char)
    ensures
        letter == level_letter(level),
{
    match level {
        Level::Critical => 'C',
        Level::Error => 'E',
        Level::Warning => 'W',
        Level::Info => 'I',
        Level::Debug => 'V',
        Level::Trace => 'V',
    }
}

} // verus!
