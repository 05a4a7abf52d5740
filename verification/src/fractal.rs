use vstd::prelude::*;

verus! {

/// The Burning Ship fractal, z <- (|Re z| + i|Im z|)^2 + c. Its escape-time
/// iteration runs in floating point in the front end.
pub struct BurningShip;

impl BurningShip {
    /// The name shown in the status bar.
    pub fn name(&self) -> (r: &'static str)
        ensures
            r@ == "Burning Ship"@,
    {
        "Burning Ship"
    }
}

} // verus!
