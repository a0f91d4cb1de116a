use vstd::prelude::*;

use super::element::MaterialId;

verus! {

/// A material with its grade and elastic properties.
#[derive(Debug, Clone)]
pub struct Material<F> {
    pub id: MaterialId,
    pub name: String,
    pub material_type: MaterialType<F>,
    pub elastic_modulus: F,
    pub poisson_ratio: F,
    pub density: F,
    pub thermal_expansion: F,
    pub code_reference: Option<CodeReference>,
}

#[derive(Debug, Clone)]
pub enum MaterialType<F> {
    Concrete { grade: ConcreteGrade<F> },
    Steel { grade: SteelGrade<F> },
    Custom,
}

#[derive(Debug, Clone)]
pub struct ConcreteGrade<F> {
    pub standard: ConcreteStandard,
    pub characteristic_strength: F,
}

#[derive(Debug, Clone)]
pub enum ConcreteStandard {
    Eurocode2 { grade: String },
    BAEL { grade: String },
}

#[derive(Debug, Clone)]
pub struct SteelGrade<F> {
    pub standard: SteelStandard,
    pub yield_strength: F,
}

#[derive(Debug, Clone)]
pub enum SteelStandard {
    Eurocode3 { grade: String },
    BAEL { grade: String },
}

/// A citation of a design code: the standard and the section of it.
#[derive(Debug, Clone, PartialEq)]
pub struct CodeReference {
    pub standard: String,
    pub section: String,
}

} // verus!
