use vstd::prelude::*;

verus! {

/// The colours in which the games draw lanes, notes and judgements.
#[derive(Debug, Clone, Copy, PartialEq, Eq, Structural)]
pub enum Palette {
    /// Pure red.
    Red,
    /// Pure blue.
    Blue,
    /// Pure green.
    Green,
    /// Pure yellow.
    Yellow,
    /// The orange of the fifth guitar fret (1.0, 0.5, 0.0).
    Orange,
    /// The gold of the best judgements (1.0, 1.0, 0.0).
    Gold,
    /// The amber of middle judgements (0.8, 0.6, 0.2).
    Amber,
    /// The light blue of a fair judgement (0.5, 0.5, 1.0).
    LightBlue,
    /// The light green of a weak judgement (0.5, 1.0, 0.5).
    LightGreen,
    /// The red of a miss (1.0, 0.0, 0.0).
    MissRed,
}

} // verus!
