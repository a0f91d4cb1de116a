use vstd::prelude::*;

use super::error::{error_views, lemma_error_views_push, ValidationError, ValidationErrorView};
use crate::structure::element::{spec_node_count, Element, ElementType};
use crate::structure::material::Material;
use crate::structure::model::StructuralModel;
use crate::structure::node::Node;
use crate::structure::support::{Direction, Support, SupportType};

verus! {

// ---------------------------------------------------------------------------
// Identifier sequences of a model
// ---------------------------------------------------------------------------

pub open spec fn node_ids<F>(nodes: Seq<Node<F>>) -> Seq<usize> {
    nodes.map_values(|n: Node<F>| n.id)
}

pub open spec fn element_ids<F>(elements: Seq<Element<F>>) -> Seq<usize> {
    elements.map_values(|e: Element<F>| e.id)
}

pub open spec fn material_ids<F>(materials: Seq<Material<F>>) -> Seq<usize> {
    materials.map_values(|m: Material<F>| m.id)
}

pub open spec fn support_node_ids<F>(supports: Seq<Support<F>>) -> Seq<usize> {
    supports.map_values(|s: Support<F>| s.node_id)
}

/// The entries of `ids` that repeat an earlier entry, in order of position.
pub open spec fn repeated_ids(ids: Seq<usize>) -> Seq<usize>
    decreases ids.len(),
{
    if ids.len() == 0 {
        seq![]
    } else {
        let prefix = ids.drop_last();
        repeated_ids(prefix) + if prefix.contains(ids.last()) {
            seq![ids.last()]
        } else {
            seq![]
        }
    }
}

/// The entries of `s` that do not occur in `known`, in order of position.
pub open spec fn absent_ids(s: Seq<usize>, known: Seq<usize>) -> Seq<usize>
    decreases s.len(),
{
    if s.len() == 0 {
        seq![]
    } else {
        absent_ids(s.drop_last(), known) + if known.contains(s.last()) {
            seq![]
        } else {
            seq![s.last()]
        }
    }
}

// ---------------------------------------------------------------------------
// What each check reports
// ---------------------------------------------------------------------------

pub open spec fn empty_model(message: Seq<char>) -> Seq<ValidationErrorView> {
    seq![ValidationErrorView::EmptyModel { message }]
}

/// One `EmptyModel` error for each of nodes, elements and materials that is empty.
pub open spec fn non_empty_errors<F>(m: StructuralModel<F>) -> Seq<ValidationErrorView> {
    (if m.nodes@.len() == 0 { empty_model("No nodes defined"@) } else { seq![] }) + (if m.elements@.len()
        == 0 {
        empty_model("No elements defined"@)
    } else {
        seq![]
    }) + (if m.materials@.len() == 0 {
        empty_model("No materials defined"@)
    } else {
        seq![]
    })
}

/// A `DuplicateNodeId` for each node whose identifier an earlier node has, then a
/// `DuplicateElementId` for each such element.
pub open spec fn unique_id_errors<F>(m: StructuralModel<F>) -> Seq<ValidationErrorView> {
    repeated_ids(node_ids(m.nodes@)).map_values(
        |id: usize| ValidationErrorView::DuplicateNodeId { node_id: id },
    ) + repeated_ids(element_ids(m.elements@)).map_values(
        |id: usize| ValidationErrorView::DuplicateElementId { element_id: id },
    )
}

/// For one element: an `InvalidNodeReference` per connected node that does not
/// exist, then an `InvalidElementConnectivity` if the node count is wrong.
pub open spec fn element_node_errors<F>(e: Element<F>, known: Seq<usize>) -> Seq<
    ValidationErrorView,
> {
    absent_ids(e.connectivity@, known).map_values(
        |id: usize| ValidationErrorView::InvalidNodeReference { element_id: e.id, node_id: id },
    ) + if e.connectivity@.len() != spec_node_count(e.element_type) {
        seq![
            ValidationErrorView::InvalidElementConnectivity {
                element_id: e.id,
                expected: spec_node_count(e.element_type) as usize,
                found: e.connectivity@.len() as usize,
            },
        ]
    } else {
        seq![]
    }
}

pub open spec fn node_reference_errors_of<F>(elements: Seq<Element<F>>, known: Seq<usize>) -> Seq<
    ValidationErrorView,
>
    decreases elements.len(),
{
    if elements.len() == 0 {
        seq![]
    } else {
        node_reference_errors_of(elements.drop_last(), known) + element_node_errors(
            elements.last(),
            known,
        )
    }
}

pub open spec fn node_reference_errors<F>(m: StructuralModel<F>) -> Seq<ValidationErrorView> {
    node_reference_errors_of(m.elements@, node_ids(m.nodes@))
}

pub open spec fn material_reference_errors_of<F>(
    elements: Seq<Element<F>>,
    known: Seq<usize>,
) -> Seq<ValidationErrorView>
    decreases elements.len(),
{
    if elements.len() == 0 {
        seq![]
    } else {
        let e = elements.last();
        material_reference_errors_of(elements.drop_last(), known) + if known.contains(
            e.material_id,
        ) {
            seq![]
        } else {
            seq![
                ValidationErrorView::InvalidMaterialReference {
                    element_id: e.id,
                    material_id: e.material_id,
                },
            ]
        }
    }
}

/// An `InvalidMaterialReference` for each element whose material does not exist.
pub open spec fn material_reference_errors<F>(m: StructuralModel<F>) -> Seq<ValidationErrorView> {
    material_reference_errors_of(m.elements@, material_ids(m.materials@))
}

/// `NoSupportsDefined` alone when there is no support; otherwise an
/// `InvalidNodeReference` (element 0) for each support on a node that does not exist.
pub open spec fn support_errors<F>(m: StructuralModel<F>) -> Seq<ValidationErrorView> {
    if m.supports@.len() == 0 {
        seq![ValidationErrorView::NoSupportsDefined]
    } else {
        absent_ids(support_node_ids(m.supports@), node_ids(m.nodes@)).map_values(
            |id: usize| ValidationErrorView::InvalidNodeReference { element_id: 0, node_id: id },
        )
    }
}

/// Whether the support restrains the freedom `dof` (0..=2 translations,
/// 3..=5 rotations) in the sense of the stability check: a roller frees the
/// translation along its direction and all rotations; a spring restrains nothing.
pub open spec fn restrains<F>(t: SupportType<F>, dof: int) -> bool {
    match t {
        SupportType::Fixed => 0 <= dof < 6,
        SupportType::Pinned => 0 <= dof < 3,
        SupportType::Roller { free_direction } => match free_direction {
            Direction::X => dof == 1 || dof == 2,
            Direction::Y => dof == 0 || dof == 2,
            Direction::Z => dof == 0 || dof == 1,
        },
        SupportType::ElasticSpring { .. } => false,
    }
}

pub open spec fn some_support_restrains<F>(supports: Seq<Support<F>>, dof: int) -> bool {
    exists|i: int| 0 <= i < supports.len() && restrains(#[trigger] supports[i].support_type, dof)
}

pub open spec fn some_support_restrains_rotation<F>(supports: Seq<Support<F>>) -> bool {
    some_support_restrains(supports, 3) || some_support_restrains(supports, 4)
        || some_support_restrains(supports, 5)
}

/// Whether the supports stand on at least two distinct nodes.
pub open spec fn supports_on_several_nodes<F>(supports: Seq<Support<F>>) -> bool {
    exists|i: int, j: int|
        0 <= i < supports.len() && 0 <= j < supports.len() && #[trigger] supports[i].node_id
            != #[trigger] supports[j].node_id
}

pub open spec fn has_frame_element<F>(elements: Seq<Element<F>>) -> bool {
    exists|i: int|
        0 <= i < elements.len() && (#[trigger] elements[i].element_type is Frame2D
            || elements[i].element_type is Frame3D)
}

pub open spec fn has_frame2d_element<F>(elements: Seq<Element<F>>) -> bool {
    exists|i: int| 0 <= i < elements.len() && #[trigger] elements[i].element_type is Frame2D
}

pub open spec fn insufficient(message: Seq<char>) -> Seq<ValidationErrorView> {
    seq![ValidationErrorView::InsufficientSupports { message }]
}

/// The rigid-body checks of models with two-dimensional frames: each global
/// translation must be restrained by some support, and rotation needs either a
/// rotational restraint or supports on two distinct nodes.  Models without
/// supports or without 2D frames get no error here.
pub open spec fn stability_errors<F>(m: StructuralModel<F>) -> Seq<ValidationErrorView> {
    let s = m.supports@;
    if s.len() == 0 || !has_frame_element(m.elements@) || !has_frame2d_element(m.elements@) {
        seq![]
    } else {
        (if some_support_restrains(s, 0) {
            seq![]
        } else {
            insufficient(
                "2D frame requires at least one horizontal restraint to prevent rigid body translation"@,
            )
        }) + (if some_support_restrains(s, 1) {
            seq![]
        } else {
            insufficient(
                "2D frame requires at least one vertical restraint to prevent rigid body translation"@,
            )
        }) + (if some_support_restrains(s, 2) {
            seq![]
        } else {
            insufficient(
                "2D frame requires at least one out-of-plane restraint to prevent rigid body translation"@,
            )
        }) + (if supports_on_several_nodes(s) || some_support_restrains_rotation(s) {
            seq![]
        } else {
            insufficient(
                "2D frame requires multiple supports or rotational restraint to prevent rigid body rotation"@,
            )
        })
    }
}

/// Every error of a model, in the order of the checks: emptiness, identifier
/// uniqueness, node references, geometry, material references, section and
/// material properties, supports, frame stability.
pub open spec fn model_errors<F>(
    m: StructuralModel<F>,
    geometry: Seq<ValidationErrorView>,
    properties: Seq<ValidationErrorView>,
) -> Seq<ValidationErrorView> {
    non_empty_errors(m) + unique_id_errors(m) + node_reference_errors(m) + geometry
        + material_reference_errors(m) + properties + support_errors(m) + stability_errors(m)
}


// ---------------------------------------------------------------------------
// Identifier helpers
// ---------------------------------------------------------------------------

fn collect_node_ids<F>(nodes: &Vec<Node<F>>) -> (ids: Vec<usize>)
    ensures
        ids@ == node_ids(nodes@),
{
    let mut ids: Vec<usize> = Vec::new();
    let mut i: usize = 0;
    while i < nodes.len()
        invariant
            i <= nodes.len(),
            ids@ == node_ids(nodes@).take(i as int),
        decreases nodes.len() - i,
    {
        ids.push(nodes[i].id);
        proof {
            assert(node_ids(nodes@).take(i + 1) =~= node_ids(nodes@).take(i as int).push(
                nodes@[i as int].id,
            ));
        }
        i += 1;
    }
    proof {
        assert(node_ids(nodes@).take(nodes@.len() as int) =~= node_ids(nodes@));
    }
    ids
}

fn collect_element_ids<F>(elements: &Vec<Element<F>>) -> (ids: Vec<usize>)
    ensures
        ids@ == element_ids(elements@),
{
    let mut ids: Vec<usize> = Vec::new();
    let mut i: usize = 0;
    while i < elements.len()
        invariant
            i <= elements.len(),
            ids@ == element_ids(elements@).take(i as int),
        decreases elements.len() - i,
    {
        ids.push(elements[i].id);
        proof {
            assert(element_ids(elements@).take(i + 1) =~= element_ids(elements@).take(
                i as int,
            ).push(elements@[i as int].id));
        }
        i += 1;
    }
    proof {
        assert(element_ids(elements@).take(elements@.len() as int) =~= element_ids(elements@));
    }
    ids
}

fn collect_material_ids<F>(materials: &Vec<Material<F>>) -> (ids: Vec<usize>)
    ensures
        ids@ == material_ids(materials@),
{
    let mut ids: Vec<usize> = Vec::new();
    let mut i: usize = 0;
    while i < materials.len()
        invariant
            i <= materials.len(),
            ids@ == material_ids(materials@).take(i as int),
        decreases materials.len() - i,
    {
        ids.push(materials[i].id);
        proof {
            assert(material_ids(materials@).take(i + 1) =~= material_ids(materials@).take(
                i as int,
            ).push(materials@[i as int].id));
        }
        i += 1;
    }
    proof {
        assert(material_ids(materials@).take(materials@.len() as int) =~= material_ids(
            materials@,
        ));
    }
    ids
}

fn collect_support_node_ids<F>(supports: &Vec<Support<F>>) -> (ids: Vec<usize>)
    ensures
        ids@ == support_node_ids(supports@),
{
    let mut ids: Vec<usize> = Vec::new();
    let mut i: usize = 0;
    while i < supports.len()
        invariant
            i <= supports.len(),
            ids@ == support_node_ids(supports@).take(i as int),
        decreases supports.len() - i,
    {
        ids.push(supports[i].node_id);
        proof {
            assert(support_node_ids(supports@).take(i + 1) =~= support_node_ids(supports@).take(
                i as int,
            ).push(supports@[i as int].node_id));
        }
        i += 1;
    }
    proof {
        assert(support_node_ids(supports@).take(supports@.len() as int) =~= support_node_ids(
            supports@,
        ));
    }
    ids
}

/// Whether `x` occurs among the first `len` entries of `ids`.
fn prefix_contains(ids: &Vec<usize>, len: usize, x: usize) -> (b: bool)
    requires
        len <= ids.len(),
    ensures
        b == ids@.take(len as int).contains(x),
{
    let mut j: usize = 0;
    while j < len
        invariant
            j <= len <= ids.len(),
            forall|k: int| 0 <= k < j ==> ids@[k] != x,
        decreases len - j,
    {
        if ids[j] == x {
            assert(ids@.take(len as int)[j as int] == x);
            return true;
        }
        j += 1;
    }
    assert forall|k: int| 0 <= k < len implies ids@.take(len as int)[k] != x by {}
    false
}

fn repeated(ids: &Vec<usize>) -> (r: Vec<usize>)
    ensures
        r@ == repeated_ids(ids@),
{
    let mut r: Vec<usize> = Vec::new();
    let mut i: usize = 0;
    while i < ids.len()
        invariant
            i <= ids.len(),
            r@ == repeated_ids(ids@.take(i as int)),
        decreases ids.len() - i,
    {
        let x = ids[i];
        let seen = prefix_contains(ids, i, x);
        proof {
            let t = ids@.take(i + 1);
            assert(t.drop_last() =~= ids@.take(i as int));
            assert(t.last() == x);
        }
        if seen {
            r.push(x);
        }
        proof {
            let t = ids@.take(i + 1);
            if seen {
                assert(r@ =~= repeated_ids(t.drop_last()) + seq![t.last()]);
            } else {
                assert(r@ =~= repeated_ids(t.drop_last()) + seq![]);
            }
        }
        i += 1;
    }
    proof {
        assert(ids@.take(ids@.len() as int) =~= ids@);
    }
    r
}

fn absent(s: &Vec<usize>, known: &Vec<usize>) -> (r: Vec<usize>)
    ensures
        r@ == absent_ids(s@, known@),
{
    let mut r: Vec<usize> = Vec::new();
    let mut i: usize = 0;
    while i < s.len()
        invariant
            i <= s.len(),
            r@ == absent_ids(s@.take(i as int), known@),
        decreases s.len() - i,
    {
        let x = s[i];
        let found = prefix_contains(known, known.len(), x);
        proof {
            let t = s@.take(i + 1);
            assert(t.drop_last() =~= s@.take(i as int));
            assert(t.last() == x);
            assert(known@.take(known@.len() as int) =~= known@);
        }
        if !found {
            r.push(x);
        }
        proof {
            let t = s@.take(i + 1);
            if found {
                assert(r@ =~= absent_ids(t.drop_last(), known@) + seq![]);
            } else {
                assert(r@ =~= absent_ids(t.drop_last(), known@) + seq![t.last()]);
            }
        }
        i += 1;
    }
    proof {
        assert(s@.take(s@.len() as int) =~= s@);
    }
    r
}


// ---------------------------------------------------------------------------
// Errors about identifiers
// ---------------------------------------------------------------------------

/// The kind of error reported about an identifier.
enum IdIssue {
    DuplicateNode,
    DuplicateElement,
    MissingNode { element_id: usize },
}

spec fn issue_view(k: IdIssue, id: usize) -> ValidationErrorView {
    match k {
        IdIssue::DuplicateNode => ValidationErrorView::DuplicateNodeId { node_id: id },
        IdIssue::DuplicateElement => ValidationErrorView::DuplicateElementId { element_id: id },
        IdIssue::MissingNode { element_id } => ValidationErrorView::InvalidNodeReference {
            element_id,
            node_id: id,
        },
    }
}

fn issue_error(k: &IdIssue, id: usize) -> (e: ValidationError)
    ensures
        e@ == issue_view(*k, id),
{
    match k {
        IdIssue::DuplicateNode => ValidationError::DuplicateNodeId { node_id: id },
        IdIssue::DuplicateElement => ValidationError::DuplicateElementId { element_id: id },
        IdIssue::MissingNode { element_id } => ValidationError::InvalidNodeReference {
            element_id: *element_id,
            node_id: id,
        },
    }
}

fn append_id_errors(errors: &mut Vec<ValidationError>, ids: &Vec<usize>, k: IdIssue)
    ensures
        error_views(final(errors)@) == error_views(old(errors)@) + ids@.map_values(
            |id: usize| issue_view(k, id),
        ),
{
    let ghost start = error_views(errors@);
    let mut i: usize = 0;
    while i < ids.len()
        invariant
            i <= ids.len(),
            error_views(errors@) == start + ids@.take(i as int).map_values(
                |id: usize| issue_view(k, id),
            ),
        decreases ids.len() - i,
    {
        let e = issue_error(&k, ids[i]);
        proof {
            lemma_error_views_push(errors@, e);
        }
        errors.push(e);
        proof {
            assert(ids@.take(i + 1).map_values(|id: usize| issue_view(k, id)) =~= ids@.take(
                i as int,
            ).map_values(|id: usize| issue_view(k, id)).push(issue_view(k, ids@[i as int])));
        }
        i += 1;
    }
    proof {
        assert(ids@.take(ids@.len() as int) =~= ids@);
    }
}

// ---------------------------------------------------------------------------
// The checks
// ---------------------------------------------------------------------------

/// Reports an empty list of nodes, elements or materials.
pub fn validate_non_empty<F>(model: &StructuralModel<F>) -> (errors: Vec<ValidationError>)
    ensures
        error_views(errors@) == non_empty_errors(*model),
{
    let mut errors: Vec<ValidationError> = Vec::new();
    if model.nodes.len() == 0 {
        errors.push(ValidationError::EmptyModel { message: "No nodes defined".to_string() });
    }
    let ghost after_nodes = errors@;
    if model.elements.len() == 0 {
        errors.push(ValidationError::EmptyModel { message: "No elements defined".to_string() });
    }
    let ghost after_elements = errors@;
    if model.materials.len() == 0 {
        errors.push(ValidationError::EmptyModel { message: "No materials defined".to_string() });
    }
    proof {
        assert(error_views(errors@) =~= non_empty_errors(*model));
    }
    errors
}

/// Reports every node and every element whose identifier repeats an earlier one.
pub fn validate_unique_ids<F>(model: &StructuralModel<F>) -> (errors: Vec<ValidationError>)
    ensures
        error_views(errors@) == unique_id_errors(*model),
{
    let mut errors: Vec<ValidationError> = Vec::new();
    let nids = collect_node_ids(&model.nodes);
    let repeated_nodes = repeated(&nids);
    append_id_errors(&mut errors, &repeated_nodes, IdIssue::DuplicateNode);
    let eids = collect_element_ids(&model.elements);
    let repeated_elements = repeated(&eids);
    append_id_errors(&mut errors, &repeated_elements, IdIssue::DuplicateElement);
    proof {
        assert(repeated_nodes@.map_values(|id: usize| issue_view(IdIssue::DuplicateNode, id))
            =~= repeated_nodes@.map_values(
            |id: usize| ValidationErrorView::DuplicateNodeId { node_id: id },
        ));
        assert(repeated_elements@.map_values(
            |id: usize| issue_view(IdIssue::DuplicateElement, id),
        ) =~= repeated_elements@.map_values(
            |id: usize| ValidationErrorView::DuplicateElementId { element_id: id },
        ));
        assert(error_views(errors@) =~= unique_id_errors(*model));
    }
    errors
}


/// Reports, per element, each connected node that does not exist and a wrong
/// number of connected nodes.
pub fn validate_node_references<F>(model: &StructuralModel<F>) -> (errors: Vec<
    ValidationError,
>)
    ensures
        error_views(errors@) == node_reference_errors(*model),
{
    let known = collect_node_ids(&model.nodes);
    let mut errors: Vec<ValidationError> = Vec::new();
    let mut i: usize = 0;
    while i < model.elements.len()
        invariant
            i <= model.elements.len(),
            known@ == node_ids(model.nodes@),
            error_views(errors@) == node_reference_errors_of(
                model.elements@.take(i as int),
                known@,
            ),
        decreases model.elements.len() - i,
    {
        let element = &model.elements[i];
        let ghost before = error_views(errors@);
        let missing = absent(&element.connectivity, &known);
        append_id_errors(&mut errors, &missing, IdIssue::MissingNode { element_id: element.id });
        let ghost middle = error_views(errors@);
        let expected = element.element_type.node_count();
        if element.connectivity.len() != expected {
            let e = ValidationError::InvalidElementConnectivity {
                element_id: element.id,
                expected,
                found: element.connectivity.len(),
            };
            proof {
                lemma_error_views_push(errors@, e);
            }
            errors.push(e);
        }
        proof {
            let t = model.elements@.take(i + 1);
            assert(t.drop_last() =~= model.elements@.take(i as int));
            assert(t.last() == *element);
            assert(missing@.map_values(
                |id: usize| issue_view(IdIssue::MissingNode { element_id: element.id }, id),
            ) =~= missing@.map_values(
                |id: usize|
                    ValidationErrorView::InvalidNodeReference {
                        element_id: element.id,
                        node_id: id,
                    },
            ));
            assert(error_views(errors@) =~= before + element_node_errors(*element, known@));
        }
        i += 1;
    }
    proof {
        assert(model.elements@.take(model.elements@.len() as int) =~= model.elements@);
    }
    errors
}

/// Reports each element whose material does not exist.
pub fn validate_material_references<F>(model: &StructuralModel<F>) -> (errors: Vec<
    ValidationError,
>)
    ensures
        error_views(errors@) == material_reference_errors(*model),
{
    let known = collect_material_ids(&model.materials);
    let mut errors: Vec<ValidationError> = Vec::new();
    let mut i: usize = 0;
    while i < model.elements.len()
        invariant
            i <= model.elements.len(),
            known@ == material_ids(model.materials@),
            error_views(errors@) == material_reference_errors_of(
                model.elements@.take(i as int),
                known@,
            ),
        decreases model.elements.len() - i,
    {
        let element = &model.elements[i];
        let ghost before = error_views(errors@);
        let found = prefix_contains(&known, known.len(), element.material_id);
        proof {
            assert(known@.take(known@.len() as int) =~= known@);
        }
        if !found {
            let e = ValidationError::InvalidMaterialReference {
                element_id: element.id,
                material_id: element.material_id,
            };
            proof {
                lemma_error_views_push(errors@, e);
            }
            errors.push(e);
        }
        proof {
            let t = model.elements@.take(i + 1);
            assert(t.drop_last() =~= model.elements@.take(i as int));
            assert(t.last() == *element);
            if found {
                assert(error_views(errors@) =~= before + seq![]);
            }
        }
        i += 1;
    }
    proof {
        assert(model.elements@.take(model.elements@.len() as int) =~= model.elements@);
    }
    errors
}

/// Reports a model without supports, or each support on a node that does not exist.
pub fn validate_supports<F>(model: &StructuralModel<F>) -> (errors: Vec<ValidationError>)
    ensures
        error_views(errors@) == support_errors(*model),
{
    let mut errors: Vec<ValidationError> = Vec::new();
    if model.supports.len() == 0 {
        errors.push(ValidationError::NoSupportsDefined);
        proof {
            assert(error_views(errors@) =~= support_errors(*model));
        }
        return errors;
    }
    let known = collect_node_ids(&model.nodes);
    let on_nodes = collect_support_node_ids(&model.supports);
    let missing = absent(&on_nodes, &known);
    append_id_errors(&mut errors, &missing, IdIssue::MissingNode { element_id: 0 });
    proof {
        assert(missing@.map_values(
            |id: usize| issue_view(IdIssue::MissingNode { element_id: 0 }, id),
        ) =~= missing@.map_values(
            |id: usize| ValidationErrorView::InvalidNodeReference { element_id: 0, node_id: id },
        ));
        assert(error_views(errors@) =~= support_errors(*model));
    }
    errors
}


/// The freedoms that a support restrains, in the sense of [`restrains`]:
/// translations x, y, z and whether any rotation is restrained.
fn stability_restraints<F>(t: &SupportType<F>) -> (r: (bool, bool, bool, bool))
    ensures
        r.0 == restrains(*t, 0),
        r.1 == restrains(*t, 1),
        r.2 == restrains(*t, 2),
        r.3 == (restrains(*t, 3) || restrains(*t, 4) || restrains(*t, 5)),
{
    match t {
        SupportType::Fixed => (true, true, true, true),
        SupportType::Pinned => (true, true, true, false),
        SupportType::Roller { free_direction } => match free_direction {
            Direction::X => (false, true, true, false),
            Direction::Y => (true, false, true, false),
            Direction::Z => (true, true, false, false),
        },
        SupportType::ElasticSpring { .. } => (false, false, false, false),
    }
}

/// Reports rigid-body instability of models with two-dimensional frames: a
/// global translation that no support restrains, or rotation left free by a
/// single supported node without rotational restraint.
pub fn validate_frame_stability<F>(model: &StructuralModel<F>) -> (errors: Vec<ValidationError>)
    ensures
        error_views(errors@) == stability_errors(*model),
{
    let mut errors: Vec<ValidationError> = Vec::new();
    let supports = &model.supports;
    let elements = &model.elements;
    if supports.len() == 0 {
        proof {
            assert(error_views(errors@) =~= stability_errors(*model));
        }
        return errors;
    }
    let mut has_frame = false;
    let mut has_frame2d = false;
    let mut i: usize = 0;
    while i < elements.len()
        invariant
            i <= elements.len(),
            has_frame == exists|k: int|
                0 <= k < i && (#[trigger] elements@[k].element_type is Frame2D
                    || elements@[k].element_type is Frame3D),
            has_frame2d == exists|k: int|
                0 <= k < i && #[trigger] elements@[k].element_type is Frame2D,
        decreases elements.len() - i,
    {
        match elements[i].element_type {
            ElementType::Frame2D { .. } => {
                has_frame = true;
                has_frame2d = true;
            },
            ElementType::Frame3D => {
                has_frame = true;
            },
            _ => {},
        }
        i += 1;
    }
    if !has_frame || !has_frame2d {
        proof {
            assert(error_views(errors@) =~= stability_errors(*model));
        }
        return errors;
    }
    let first_node = supports[0].node_id;
    let mut several = false;
    let mut ux = false;
    let mut uy = false;
    let mut uz = false;
    let mut rotation = false;
    let mut j: usize = 0;
    while j < supports.len()
        invariant
            0 < supports.len(),
            j <= supports.len(),
            first_node == supports@[0].node_id,
            several == exists|k: int| 0 <= k < j && #[trigger] supports@[k].node_id != first_node,
            ux == exists|k: int| 0 <= k < j && restrains(#[trigger] supports@[k].support_type, 0),
            uy == exists|k: int| 0 <= k < j && restrains(#[trigger] supports@[k].support_type, 1),
            uz == exists|k: int| 0 <= k < j && restrains(#[trigger] supports@[k].support_type, 2),
            rotation == exists|k: int|
                0 <= k < j && (restrains(#[trigger] supports@[k].support_type, 3) || restrains(
                    supports@[k].support_type,
                    4,
                ) || restrains(supports@[k].support_type, 5)),
        decreases supports.len() - j,
    {
        let support = &supports[j];
        if support.node_id != first_node {
            several = true;
        }
        let r = stability_restraints(&support.support_type);
        ux = ux || r.0;
        uy = uy || r.1;
        uz = uz || r.2;
        rotation = rotation || r.3;
        j += 1;
    }
    proof {
        let s = supports@;
        if several {
            let k = choose|k: int| 0 <= k < s.len() && #[trigger] s[k].node_id != first_node;
            assert(s[k].node_id != s[0].node_id);
            assert(supports_on_several_nodes(s));
        }
        if supports_on_several_nodes(s) {
            let (a, b) = choose|a: int, b: int|
                0 <= a < s.len() && 0 <= b < s.len() && #[trigger] s[a].node_id
                    != #[trigger] s[b].node_id;
            if s[a].node_id != first_node {
                assert(several);
            } else {
                assert(s[b].node_id != first_node);
                assert(several);
            }
        }
        if rotation {
            let k = choose|k: int|
                0 <= k < s.len() && (restrains(#[trigger] s[k].support_type, 3) || restrains(
                    s[k].support_type,
                    4,
                ) || restrains(s[k].support_type, 5));
            if restrains(s[k].support_type, 3) {
                assert(some_support_restrains(s, 3));
            } else if restrains(s[k].support_type, 4) {
                assert(some_support_restrains(s, 4));
            } else {
                assert(some_support_restrains(s, 5));
            }
        }
        assert(rotation == some_support_restrains_rotation(s));
    }
    let ghost e0 = errors@;
    if !ux {
        errors.push(
            ValidationError::InsufficientSupports {
                message: "2D frame requires at least one horizontal restraint to prevent rigid body translation".to_string(),
            },
        );
    }
    let ghost e1 = errors@;
    if !uy {
        errors.push(
            ValidationError::InsufficientSupports {
                message: "2D frame requires at least one vertical restraint to prevent rigid body translation".to_string(),
            },
        );
    }
    let ghost e2 = errors@;
    if !uz {
        errors.push(
            ValidationError::InsufficientSupports {
                message: "2D frame requires at least one out-of-plane restraint to prevent rigid body translation".to_string(),
            },
        );
    }
    let ghost e3 = errors@;
    if !several && !rotation {
        errors.push(
            ValidationError::InsufficientSupports {
                message: "2D frame requires multiple supports or rotational restraint to prevent rigid body rotation".to_string(),
            },
        );
    }
    proof {
        assert(error_views(errors@) =~= stability_errors(*model));
    }
    errors
}


/// Index of the last node with identifier `x` in `ids`, or -1 when none has it
/// (the node that an identifier lookup table built in node order resolves to).
pub open spec fn last_index_of(ids: Seq<usize>, x: usize) -> int
    decreases ids.len(),
{
    if ids.len() == 0 {
        -1
    } else if ids.last() == x {
        ids.len() - 1
    } else {
        last_index_of(ids.drop_last(), x)
    }
}

/// The length check one element calls for: a line element with two nodes that
/// both resolve gives (element id, index of its first node, index of its second node).
pub open spec fn length_check_of<F>(e: Element<F>, ids: Seq<usize>) -> Seq<(usize, usize, usize)> {
    if (e.element_type is Beam1D || e.element_type is Frame2D || e.element_type is Frame3D)
        && e.connectivity@.len() == 2 && last_index_of(ids, e.connectivity@[0]) >= 0
        && last_index_of(ids, e.connectivity@[1]) >= 0 {
        seq![
            (
                e.id,
                last_index_of(ids, e.connectivity@[0]) as usize,
                last_index_of(ids, e.connectivity@[1]) as usize,
            ),
        ]
    } else {
        seq![]
    }
}

pub open spec fn length_checks_of<F>(elements: Seq<Element<F>>, ids: Seq<usize>) -> Seq<
    (usize, usize, usize),
>
    decreases elements.len(),
{
    if elements.len() == 0 {
        seq![]
    } else {
        length_checks_of(elements.drop_last(), ids) + length_check_of(elements.last(), ids)
    }
}

proof fn lemma_last_index_bounds(ids: Seq<usize>, x: usize)
    ensures
        -1 <= last_index_of(ids, x) < ids.len(),
        last_index_of(ids, x) >= 0 ==> ids[last_index_of(ids, x)] == x,
        last_index_of(ids, x) < 0 <==> !ids.contains(x),
    decreases ids.len(),
{
    if ids.len() > 0 {
        lemma_last_index_bounds(ids.drop_last(), x);
        if ids.last() != x {
            if ids.contains(x) {
                let k = choose|k: int| 0 <= k < ids.len() && ids[k] == x;
                assert(ids.drop_last()[k] == x);
            }
        }
    }
}

fn last_index(ids: &Vec<usize>, x: usize) -> (r: Option<usize>)
    ensures
        r matches Some(k) ==> last_index_of(ids@, x) == k as int,
        r is None ==> last_index_of(ids@, x) == -1,
{
    let mut k: usize = ids.len();
    proof {
        assert(ids@.take(k as int) =~= ids@);
    }
    while k > 0
        invariant
            k <= ids.len(),
            last_index_of(ids@, x) == last_index_of(ids@.take(k as int), x),
        decreases k,
    {
        let ghost t = ids@.take(k as int);
        proof {
            assert(t.drop_last() =~= ids@.take(k - 1));
        }
        if ids[k - 1] == x {
            return Some(k - 1);
        }
        k -= 1;
    }
    None
}

/// The node pairs whose distance decides whether an element has zero length:
/// for each two-node line element whose nodes both exist, its identifier and the
/// positions in `model.nodes` of its two nodes.
pub fn length_checks<F>(model: &StructuralModel<F>) -> (checks: Vec<(usize, usize, usize)>)
    ensures
        checks@ == length_checks_of(model.elements@, node_ids(model.nodes@)),
        forall|k: int|
            0 <= k < checks@.len() ==> (#[trigger] checks@[k]).1 < model.nodes@.len()
                && checks@[k].2 < model.nodes@.len(),
{
    length_checks_in(&model.nodes, &model.elements)
}

/// [`length_checks`] for the given nodes and elements.
pub fn length_checks_in<F>(nodes: &Vec<Node<F>>, elements: &Vec<Element<F>>) -> (checks: Vec<
    (usize, usize, usize),
>)
    ensures
        checks@ == length_checks_of(elements@, node_ids(nodes@)),
        forall|k: int|
            0 <= k < checks@.len() ==> (#[trigger] checks@[k]).1 < nodes@.len() && checks@[k].2
                < nodes@.len(),
{
    let ids = collect_node_ids(nodes);
    let mut checks: Vec<(usize, usize, usize)> = Vec::new();
    let mut i: usize = 0;
    while i < elements.len()
        invariant
            i <= elements.len(),
            ids@ == node_ids(nodes@),
            ids@.len() == nodes@.len(),
            checks@ == length_checks_of(elements@.take(i as int), ids@),
            forall|k: int|
                0 <= k < checks@.len() ==> (#[trigger] checks@[k]).1 < nodes@.len()
                    && checks@[k].2 < nodes@.len(),
        decreases elements.len() - i,
    {
        let element = &elements[i];
        let ghost before = checks@;
        if element.element_type.is_line_element() && element.connectivity.len() == 2 {
            let a = last_index(&ids, element.connectivity[0]);
            let b = last_index(&ids, element.connectivity[1]);
            proof {
                lemma_last_index_bounds(ids@, element.connectivity@[0]);
                lemma_last_index_bounds(ids@, element.connectivity@[1]);
            }
            match (a, b) {
                (Some(a), Some(b)) => {
                    checks.push((element.id, a, b));
                },
                _ => {},
            }
        }
        proof {
            let t = elements@.take(i + 1);
            assert(t.drop_last() =~= elements@.take(i as int));
            assert(t.last() == *element);
            assert(checks@ =~= before + length_check_of(*element, ids@));
        }
        i += 1;
    }
    proof {
        assert(elements@.take(elements@.len() as int) =~= elements@);
    }
    checks
}

/// Runs every check on `model`.  The zero-length and property checks compare
/// quantities of the scalar type: their findings come in as `geometry` and
/// `properties` and take their place in the order of the checks.  The result
/// is `Ok` exactly when no check reports anything.
pub fn validate_model<F>(
    model: &StructuralModel<F>,
    geometry: Vec<ValidationError>,
    properties: Vec<ValidationError>,
) -> (r: Result<(), Vec<ValidationError>>)
    ensures
        match r {
            Ok(()) => model_errors(*model, error_views(geometry@), error_views(properties@))
                =~= seq![],
            Err(errors) => errors@.len() > 0 && error_views(errors@) == model_errors(
                *model,
                error_views(geometry@),
                error_views(properties@),
            ),
        },
{
    let mut geometry = geometry;
    let mut properties = properties;
    let ghost g = geometry@;
    let ghost p = properties@;
    let mut errors = validate_non_empty(model);
    let mut step = validate_unique_ids(model);
    proof { super::error::lemma_error_views_add(errors@, step@); }
    errors.append(&mut step);
    let mut step = validate_node_references(model);
    proof { super::error::lemma_error_views_add(errors@, step@); }
    errors.append(&mut step);
    proof { super::error::lemma_error_views_add(errors@, geometry@); }
    errors.append(&mut geometry);
    let mut step = validate_material_references(model);
    proof { super::error::lemma_error_views_add(errors@, step@); }
    errors.append(&mut step);
    proof { super::error::lemma_error_views_add(errors@, properties@); }
    errors.append(&mut properties);
    let mut step = validate_supports(model);
    proof { super::error::lemma_error_views_add(errors@, step@); }
    errors.append(&mut step);
    let mut step = validate_frame_stability(model);
    proof { super::error::lemma_error_views_add(errors@, step@); }
    errors.append(&mut step);
    proof {
        assert(error_views(errors@) =~= model_errors(*model, error_views(g), error_views(p)));
    }
    if errors.len() == 0 {
        Ok(())
    } else {
        Err(errors)
    }
}


/// The errors of a model depend on its nodes, elements, materials and supports only.
pub proof fn lemma_model_errors_depend_on_parts<F>(
    a: StructuralModel<F>,
    b: StructuralModel<F>,
    geometry: Seq<ValidationErrorView>,
    properties: Seq<ValidationErrorView>,
)
    requires
        a.nodes@ == b.nodes@,
        a.elements@ == b.elements@,
        a.materials@ == b.materials@,
        a.supports@ == b.supports@,
    ensures
        model_errors(a, geometry, properties) == model_errors(b, geometry, properties),
{
}


/// Identifiers that are their own positions never repeat.
pub proof fn lemma_repeated_ids_of_positions(ids: Seq<usize>)
    requires
        forall|k: int| 0 <= k < ids.len() ==> ids[k] == k,
    ensures
        repeated_ids(ids) == Seq::<usize>::empty(),
    decreases ids.len(),
{
    if ids.len() > 0 {
        let prefix = ids.drop_last();
        lemma_repeated_ids_of_positions(prefix);
        if prefix.contains(ids.last()) {
            let k = choose|k: int| 0 <= k < prefix.len() && prefix[k] == ids.last();
            assert(prefix[k] == k);
        }
        assert(repeated_ids(ids) =~= Seq::<usize>::empty());
    }
}

/// Against identifiers that are their own positions, every entry below their
/// count is present.
pub proof fn lemma_absent_ids_of_positions(s: Seq<usize>, known: Seq<usize>)
    requires
        forall|k: int| 0 <= k < known.len() ==> known[k] == k,
        forall|k: int| 0 <= k < s.len() ==> s[k] < known.len(),
    ensures
        absent_ids(s, known) == Seq::<usize>::empty(),
    decreases s.len(),
{
    if s.len() > 0 {
        lemma_absent_ids_of_positions(s.drop_last(), known);
        assert(known[s.last() as int] == s.last());
        assert(known.contains(s.last()));
        assert(absent_ids(s, known) =~= Seq::<usize>::empty());
    }
}

/// An element whose nodes and material are all known and whose node count fits its kind.
pub open spec fn element_fits<F>(e: Element<F>, nodes: Seq<usize>, materials: Seq<usize>) -> bool {
    &&& absent_ids(e.connectivity@, nodes) == Seq::<usize>::empty()
    &&& e.connectivity@.len() == spec_node_count(e.element_type)
    &&& materials.contains(e.material_id)
}

pub proof fn lemma_references_of_fitting_elements<F>(
    elements: Seq<Element<F>>,
    nodes: Seq<usize>,
    materials: Seq<usize>,
)
    requires
        forall|k: int| 0 <= k < elements.len() ==> element_fits(#[trigger] elements[k], nodes, materials),
    ensures
        node_reference_errors_of(elements, nodes) == Seq::<ValidationErrorView>::empty(),
        material_reference_errors_of(elements, materials) == Seq::<ValidationErrorView>::empty(),
    decreases elements.len(),
{
    if elements.len() > 0 {
        let prefix = elements.drop_last();
        assert forall|k: int| 0 <= k < prefix.len() implies element_fits(
            #[trigger] prefix[k],
            nodes,
            materials,
        ) by {
            assert(prefix[k] == elements[k]);
        }
        lemma_references_of_fitting_elements(prefix, nodes, materials);
        assert(element_fits(elements[elements.len() - 1], nodes, materials));
        assert(element_node_errors(elements.last(), nodes) =~= Seq::<ValidationErrorView>::empty());
        assert(node_reference_errors_of(elements, nodes) =~= Seq::<ValidationErrorView>::empty());
        assert(material_reference_errors_of(elements, materials)
            =~= Seq::<ValidationErrorView>::empty());
    }
}


/// A fixed support anywhere makes a model rigid-body stable: the stability
/// check reports nothing.
pub proof fn lemma_fixed_support_is_stable<F>(m: StructuralModel<F>, i: int)
    requires
        0 <= i < m.supports@.len(),
        m.supports@[i].support_type is Fixed,
    ensures
        stability_errors(m) == Seq::<ValidationErrorView>::empty(),
{
    let s = m.supports@;
    assert(restrains(s[i].support_type, 0));
    assert(restrains(s[i].support_type, 1));
    assert(restrains(s[i].support_type, 2));
    assert(restrains(s[i].support_type, 3));
    assert(some_support_restrains(s, 0));
    assert(some_support_restrains(s, 1));
    assert(some_support_restrains(s, 2));
    assert(some_support_restrains(s, 3));
    assert(stability_errors(m) =~= Seq::<ValidationErrorView>::empty());
}

} // verus!
