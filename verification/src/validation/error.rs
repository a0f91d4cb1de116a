use vstd::prelude::*;

use crate::structure::element::ElementId;
use crate::structure::node::NodeId;
use crate::text::{decimal, decimal_string};

verus! {

/// A defect found in a structural model.
#[derive(Debug, Clone, PartialEq)]
pub enum ValidationError {
    InvalidNodeReference { element_id: ElementId, node_id: NodeId },
    DuplicateNodeId { node_id: NodeId },
    DuplicateElementId { element_id: ElementId },
    ZeroLengthElement { element_id: ElementId },
    InvalidElementConnectivity { element_id: ElementId, expected: usize, found: usize },
    InvalidMaterialReference { element_id: ElementId, material_id: usize },
    NoSupportsDefined,
    InsufficientSupports { message: String },
    ConflictingSupports { node_id: NodeId, message: String },
    InvalidSectionProperties { element_id: ElementId, message: String },
    InvalidMaterialProperties { material_id: usize, message: String },
    EmptyModel { message: String },
}

/// [`ValidationError`] with its texts as character sequences.
pub enum ValidationErrorView {
    InvalidNodeReference { element_id: ElementId, node_id: NodeId },
    DuplicateNodeId { node_id: NodeId },
    DuplicateElementId { element_id: ElementId },
    ZeroLengthElement { element_id: ElementId },
    InvalidElementConnectivity { element_id: ElementId, expected: usize, found: usize },
    InvalidMaterialReference { element_id: ElementId, material_id: usize },
    NoSupportsDefined,
    InsufficientSupports { message: Seq<char> },
    ConflictingSupports { node_id: NodeId, message: Seq<char> },
    InvalidSectionProperties { element_id: ElementId, message: Seq<char> },
    InvalidMaterialProperties { material_id: usize, message: Seq<char> },
    EmptyModel { message: Seq<char> },
}

impl View for ValidationError {
    type V = ValidationErrorView;

    open spec fn view(&self) -> ValidationErrorView {
        match self {
            ValidationError::InvalidNodeReference { element_id, node_id } =>
                ValidationErrorView::InvalidNodeReference { element_id: *element_id, node_id: *node_id },
            ValidationError::DuplicateNodeId { node_id } =>
                ValidationErrorView::DuplicateNodeId { node_id: *node_id },
            ValidationError::DuplicateElementId { element_id } =>
                ValidationErrorView::DuplicateElementId { element_id: *element_id },
            ValidationError::ZeroLengthElement { element_id } =>
                ValidationErrorView::ZeroLengthElement { element_id: *element_id },
            ValidationError::InvalidElementConnectivity { element_id, expected, found } =>
                ValidationErrorView::InvalidElementConnectivity {
                    element_id: *element_id,
                    expected: *expected,
                    found: *found,
                },
            ValidationError::InvalidMaterialReference { element_id, material_id } =>
                ValidationErrorView::InvalidMaterialReference {
                    element_id: *element_id,
                    material_id: *material_id,
                },
            ValidationError::NoSupportsDefined => ValidationErrorView::NoSupportsDefined,
            ValidationError::InsufficientSupports { message } =>
                ValidationErrorView::InsufficientSupports { message: message@ },
            ValidationError::ConflictingSupports { node_id, message } =>
                ValidationErrorView::ConflictingSupports { node_id: *node_id, message: message@ },
            ValidationError::InvalidSectionProperties { element_id, message } =>
                ValidationErrorView::InvalidSectionProperties {
                    element_id: *element_id,
                    message: message@,
                },
            ValidationError::InvalidMaterialProperties { material_id, message } =>
                ValidationErrorView::InvalidMaterialProperties {
                    material_id: *material_id,
                    message: message@,
                },
            ValidationError::EmptyModel { message } =>
                ValidationErrorView::EmptyModel { message: message@ },
        }
    }
}

/// The views of a sequence of validation errors, in order.
pub open spec fn error_views(s: Seq<ValidationError>) -> Seq<ValidationErrorView> {
    s.map_values(|e: ValidationError| e@)
}

pub proof fn lemma_error_views_push(s: Seq<ValidationError>, e: ValidationError)
    ensures
        error_views(s.push(e)) == error_views(s).push(e@),
{
    assert(error_views(s.push(e)) =~= error_views(s).push(e@));
}

pub proof fn lemma_error_views_add(s: Seq<ValidationError>, t: Seq<ValidationError>)
    ensures
        error_views(s + t) == error_views(s) + error_views(t),
{
    assert(error_views(s + t) =~= error_views(s) + error_views(t));
}

/// A failure of a model-building step.
#[derive(Debug, Clone, PartialEq)]
pub enum BuildError {
    DuplicateId { message: String },
    InvalidProperty { message: String },
    MissingRequiredField { field: String },
    InconsistentState { message: String },
    InvalidNodeReference { element_id: ElementId, node_id: NodeId },
    InvalidMaterialReference { element_id: ElementId, material_id: usize },
    ValidationFailed { errors: Vec<ValidationError> },
}


/// The text of a validation error.
pub open spec fn validation_error_text(e: ValidationErrorView) -> Seq<char> {
    match e {
        ValidationErrorView::InvalidNodeReference { element_id, node_id } => "Element "@ + decimal(
            element_id as nat,
        ) + " references non-existent node "@ + decimal(node_id as nat),
        ValidationErrorView::DuplicateNodeId { node_id } => "Duplicate node ID: "@ + decimal(
            node_id as nat,
        ),
        ValidationErrorView::DuplicateElementId { element_id } => "Duplicate element ID: "@
            + decimal(element_id as nat),
        ValidationErrorView::ZeroLengthElement { element_id } => "Element "@ + decimal(
            element_id as nat,
        ) + " has zero length"@,
        ValidationErrorView::InvalidElementConnectivity { element_id, expected, found } =>
            "Element "@ + decimal(element_id as nat) + " has invalid connectivity: expected "@
                + decimal(expected as nat) + " nodes, found "@ + decimal(found as nat),
        ValidationErrorView::InvalidMaterialReference { element_id, material_id } => "Element "@
            + decimal(element_id as nat) + " references non-existent material "@ + decimal(
            material_id as nat,
        ),
        ValidationErrorView::NoSupportsDefined =>
            "Model has no supports defined (unstable structure)"@,
        ValidationErrorView::InsufficientSupports { message } => "Insufficient supports: "@
            + message,
        ValidationErrorView::ConflictingSupports { node_id, message } =>
            "Conflicting supports at node "@ + decimal(node_id as nat) + ": "@ + message,
        ValidationErrorView::InvalidSectionProperties { element_id, message } =>
            "Invalid section properties for element "@ + decimal(element_id as nat) + ": "@
                + message,
        ValidationErrorView::InvalidMaterialProperties { material_id, message } =>
            "Invalid material properties for material "@ + decimal(material_id as nat) + ": "@
                + message,
        ValidationErrorView::EmptyModel { message } => "Empty model: "@ + message,
    }
}

impl ValidationError {
    /// The text of the error, as shown to a user.
    pub fn to_string(&self) -> (s: String)
        ensures
            s@ == validation_error_text(self@),
    {
        match self {
            ValidationError::InvalidNodeReference { element_id, node_id } => {
                let mut s = "Element ".to_string();
                s.append(decimal_string(*element_id).as_str());
                s.append(" references non-existent node ");
                s.append(decimal_string(*node_id).as_str());
                s
            },
            ValidationError::DuplicateNodeId { node_id } => {
                let mut s = "Duplicate node ID: ".to_string();
                s.append(decimal_string(*node_id).as_str());
                s
            },
            ValidationError::DuplicateElementId { element_id } => {
                let mut s = "Duplicate element ID: ".to_string();
                s.append(decimal_string(*element_id).as_str());
                s
            },
            ValidationError::ZeroLengthElement { element_id } => {
                let mut s = "Element ".to_string();
                s.append(decimal_string(*element_id).as_str());
                s.append(" has zero length");
                s
            },
            ValidationError::InvalidElementConnectivity { element_id, expected, found } => {
                let mut s = "Element ".to_string();
                s.append(decimal_string(*element_id).as_str());
                s.append(" has invalid connectivity: expected ");
                s.append(decimal_string(*expected).as_str());
                s.append(" nodes, found ");
                s.append(decimal_string(*found).as_str());
                s
            },
            ValidationError::InvalidMaterialReference { element_id, material_id } => {
                let mut s = "Element ".to_string();
                s.append(decimal_string(*element_id).as_str());
                s.append(" references non-existent material ");
                s.append(decimal_string(*material_id).as_str());
                s
            },
            ValidationError::NoSupportsDefined => {
                "Model has no supports defined (unstable structure)".to_string()
            },
            ValidationError::InsufficientSupports { message } => {
                let mut s = "Insufficient supports: ".to_string();
                s.append(message.as_str());
                s
            },
            ValidationError::ConflictingSupports { node_id, message } => {
                let mut s = "Conflicting supports at node ".to_string();
                s.append(decimal_string(*node_id).as_str());
                s.append(": ");
                s.append(message.as_str());
                s
            },
            ValidationError::InvalidSectionProperties { element_id, message } => {
                let mut s = "Invalid section properties for element ".to_string();
                s.append(decimal_string(*element_id).as_str());
                s.append(": ");
                s.append(message.as_str());
                s
            },
            ValidationError::InvalidMaterialProperties { material_id, message } => {
                let mut s = "Invalid material properties for material ".to_string();
                s.append(decimal_string(*material_id).as_str());
                s.append(": ");
                s.append(message.as_str());
                s
            },
            ValidationError::EmptyModel { message } => {
                let mut s = "Empty model: ".to_string();
                s.append(message.as_str());
                s
            },
        }
    }
}

/// [`BuildError`] with its texts as character sequences.
pub enum BuildErrorView {
    DuplicateId { message: Seq<char> },
    InvalidProperty { message: Seq<char> },
    MissingRequiredField { field: Seq<char> },
    InconsistentState { message: Seq<char> },
    InvalidNodeReference { element_id: ElementId, node_id: NodeId },
    InvalidMaterialReference { element_id: ElementId, material_id: usize },
    ValidationFailed { errors: Seq<ValidationErrorView> },
}

impl View for BuildError {
    type V = BuildErrorView;

    open spec fn view(&self) -> BuildErrorView {
        match self {
            BuildError::DuplicateId { message } => BuildErrorView::DuplicateId { message: message@ },
            BuildError::InvalidProperty { message } => BuildErrorView::InvalidProperty {
                message: message@,
            },
            BuildError::MissingRequiredField { field } => BuildErrorView::MissingRequiredField {
                field: field@,
            },
            BuildError::InconsistentState { message } => BuildErrorView::InconsistentState {
                message: message@,
            },
            BuildError::InvalidNodeReference { element_id, node_id } =>
                BuildErrorView::InvalidNodeReference { element_id: *element_id, node_id: *node_id },
            BuildError::InvalidMaterialReference { element_id, material_id } =>
                BuildErrorView::InvalidMaterialReference {
                    element_id: *element_id,
                    material_id: *material_id,
                },
            BuildError::ValidationFailed { errors } => BuildErrorView::ValidationFailed {
                errors: error_views(errors@),
            },
        }
    }
}

/// The text of a build error.
pub open spec fn build_error_text(e: BuildErrorView) -> Seq<char> {
    match e {
        BuildErrorView::DuplicateId { message } => "Duplicate ID: "@ + message,
        BuildErrorView::InvalidProperty { message } => "Invalid property: "@ + message,
        BuildErrorView::MissingRequiredField { field } => "Missing required field: "@ + field,
        BuildErrorView::InconsistentState { message } => "Inconsistent state: "@ + message,
        BuildErrorView::InvalidNodeReference { element_id, node_id } => "Element "@ + decimal(
            element_id as nat,
        ) + " references non-existent node "@ + decimal(node_id as nat),
        BuildErrorView::InvalidMaterialReference { element_id, material_id } => "Element "@
            + decimal(element_id as nat) + " references non-existent material "@ + decimal(
            material_id as nat,
        ),
        BuildErrorView::ValidationFailed { errors } => "Model validation failed with "@ + decimal(
            errors.len(),
        ) + " errors"@,
    }
}

impl BuildError {
    /// The text of the error, as shown to a user.
    pub fn to_string(&self) -> (s: String)
        ensures
            s@ == build_error_text(self@),
    {
        match self {
            BuildError::DuplicateId { message } => {
                let mut s = "Duplicate ID: ".to_string();
                s.append(message.as_str());
                s
            },
            BuildError::InvalidProperty { message } => {
                let mut s = "Invalid property: ".to_string();
                s.append(message.as_str());
                s
            },
            BuildError::MissingRequiredField { field } => {
                let mut s = "Missing required field: ".to_string();
                s.append(field.as_str());
                s
            },
            BuildError::InconsistentState { message } => {
                let mut s = "Inconsistent state: ".to_string();
                s.append(message.as_str());
                s
            },
            BuildError::InvalidNodeReference { element_id, node_id } => {
                let mut s = "Element ".to_string();
                s.append(decimal_string(*element_id).as_str());
                s.append(" references non-existent node ");
                s.append(decimal_string(*node_id).as_str());
                s
            },
            BuildError::InvalidMaterialReference { element_id, material_id } => {
                let mut s = "Element ".to_string();
                s.append(decimal_string(*element_id).as_str());
                s.append(" references non-existent material ");
                s.append(decimal_string(*material_id).as_str());
                s
            },
            BuildError::ValidationFailed { errors } => {
                let mut s = "Model validation failed with ".to_string();
                s.append(decimal_string(errors.len()).as_str());
                s.append(" errors");
                s
            },
        }
    }
}

} // verus!
