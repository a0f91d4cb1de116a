use vstd::prelude::*;

use super::element::{Element, ElementId};
use super::load::LoadCase;
use super::material::Material;
use super::node::{Node, NodeId};
use super::support::Support;
use crate::analysis::result::{first_index_of, first_position};
use crate::validation::checks::{element_ids, model_errors, node_ids, validate_model};
use crate::validation::error::{error_views, ValidationError};

verus! {

/// A complete structural model.
#[derive(Debug, Clone)]
pub struct StructuralModel<F> {
    pub nodes: Vec<Node<F>>,
    pub elements: Vec<Element<F>>,
    pub materials: Vec<Material<F>>,
    pub supports: Vec<Support<F>>,
    pub load_cases: Vec<LoadCase<F>>,
    pub metadata: ModelMetadata,
}

/// Descriptive data of a model; `created` and `modified` are RFC 3339 instants.
#[derive(Debug, Clone)]
pub struct ModelMetadata {
    pub name: String,
    pub description: String,
    pub created: String,
    pub modified: String,
    pub units: UnitSystem,
    pub coordinate_system: CoordinateSystem,
}

#[derive(Debug, Clone, Copy, PartialEq, Eq, Structural)]
pub enum UnitSystem {
    SI,
    Imperial,
}

#[derive(Debug, Clone)]
pub enum CoordinateSystem {
    Global { x_direction: String, y_direction: String, z_direction: String },
}


impl<F> StructuralModel<F> {
    /// Validates the model (see [`validate_model`]); `geometry` and `properties`
    /// are the zero-length and property findings.
    pub fn validate(&self, geometry: Vec<ValidationError>, properties: Vec<ValidationError>) -> (r:
        Result<(), Vec<ValidationError>>)
        ensures
            match r {
                Ok(()) => model_errors(*self, error_views(geometry@), error_views(properties@))
                    =~= seq![],
                Err(errors) => errors@.len() > 0 && error_views(errors@) == model_errors(
                    *self,
                    error_views(geometry@),
                    error_views(properties@),
                ),
            },
    {
        validate_model(self, geometry, properties)
    }
}


impl<F> StructuralModel<F> {
    /// The first node with identifier `id`, if any.
    pub fn node_by_id(&self, id: NodeId) -> (r: Option<&Node<F>>)
        ensures
            ({
                let k = first_index_of(node_ids(self.nodes@), id);
                &&& k < self.nodes@.len() ==> r == Some(&self.nodes@[k])
                &&& k >= self.nodes@.len() ==> r is None
            }),
    {
        let mut ids: Vec<usize> = Vec::new();
        let mut i: usize = 0;
        while i < self.nodes.len()
            invariant
                i <= self.nodes@.len(),
                ids@ == node_ids(self.nodes@).take(i as int),
            decreases self.nodes@.len() - i,
        {
            ids.push(self.nodes[i].id);
            proof {
                assert(node_ids(self.nodes@).take(i + 1) =~= node_ids(self.nodes@).take(
                    i as int,
                ).push(self.nodes@[i as int].id));
            }
            i += 1;
        }
        proof {
            assert(node_ids(self.nodes@).take(self.nodes@.len() as int) =~= node_ids(self.nodes@));
        }
        match first_position(&ids, id) {
            Some(k) => Some(&self.nodes[k]),
            None => None,
        }
    }

    /// The first element with identifier `id`, if any.
    pub fn element_by_id(&self, id: ElementId) -> (r: Option<&Element<F>>)
        ensures
            ({
                let k = first_index_of(element_ids(self.elements@), id);
                &&& k < self.elements@.len() ==> r == Some(&self.elements@[k])
                &&& k >= self.elements@.len() ==> r is None
            }),
    {
        let mut ids: Vec<usize> = Vec::new();
        let mut i: usize = 0;
        while i < self.elements.len()
            invariant
                i <= self.elements@.len(),
                ids@ == element_ids(self.elements@).take(i as int),
            decreases self.elements@.len() - i,
        {
            ids.push(self.elements[i].id);
            proof {
                assert(element_ids(self.elements@).take(i + 1) =~= element_ids(
                    self.elements@,
                ).take(i as int).push(self.elements@[i as int].id));
            }
            i += 1;
        }
        proof {
            assert(element_ids(self.elements@).take(self.elements@.len() as int) =~= element_ids(
                self.elements@,
            ));
        }
        match first_position(&ids, id) {
            Some(k) => Some(&self.elements[k]),
            None => None,
        }
    }
}

} // verus!
