use vstd::prelude::*;

verus! {

/// Cross-section properties of a line element.
#[derive(Debug, Clone, Copy, PartialEq)]
pub struct Section<F> {
    pub area: F,
    pub inertia_y: F,
    pub inertia_z: F,
    pub torsion_constant: F,
}

impl<F> Section<F> {
    pub fn new(area: F, inertia_y: F, inertia_z: F, torsion_constant: F) -> (s: Self)
        ensures
            s == (Section { area, inertia_y, inertia_z, torsion_constant }),
    {
        Section { area, inertia_y, inertia_z, torsion_constant }
    }
}

} // verus!
