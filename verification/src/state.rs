use vstd::prelude::*;

verus! {

/// What is remembered of one source between runs.
pub struct SourceState {
    pub url: String,
    pub volume: i32,
    pub muted: bool,
    pub previous_volume: i32,
}

/// What is remembered of the mixer between runs: the selected source and,
/// in configuration order, each source's levels.
pub struct State {
    pub current_index: usize,
    pub sources: Vec<SourceState>,
}

} // verus!
