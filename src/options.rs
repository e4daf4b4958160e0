use vstd::prelude::*;

verus! {

/// The settings of a run, as the user gives them.
pub struct Options {
    /// Digits after the point in the written angles.
    pub decimals: i32,
    /// Where the world-state dump is read from.
    pub info_path: String,
    /// One checkpoint rectangle per line, as `x1, y1, x2, y2`.
    pub checkpoints: String,
}

} // verus!
