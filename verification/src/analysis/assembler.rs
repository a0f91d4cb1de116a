use vstd::prelude::*;

use crate::structure::element::{Element, ElementId, ElementType, Plane};
use crate::structure::geometry::Vector3D;
use crate::structure::model::StructuralModel;
use crate::structure::node::Node;
use super::result::{ElementForceComponents, ElementForces, NodalDisplacement, SupportReaction};
use crate::structure::support::{Direction, SpringStiffness, Support, SupportType};
use crate::validation::checks::restrains;

verus! {

/// Number of degrees of freedom of every node: translations along x, y, z,
/// then rotations about x, y, z.
pub const DOFS_PER_NODE: usize = 6;

/// The global number of freedom `local` of node `node`.
pub open spec fn global_dof(node: int, local: int) -> int {
    node * 6 + local
}

/// The numbering of global stiffness and load entries: node `n` owns the six
/// consecutive freedoms from `6 n`.
pub struct GlobalAssembler;

/// How a support holds a freedom: rigidly (by a large penalty) or by a spring
/// of the given stiffness.
#[derive(Debug, Clone, Copy, PartialEq)]
pub enum Restraint<F> {
    Rigid,
    Spring(F),
}

/// The freedoms (local numbers) that a support holds and how, in the order the
/// boundary conditions are applied.  A roller frees the translation along its
/// direction and holds the other two translations and the torsion about its
/// direction; a spring holds the freedoms whose stiffness is given.
pub open spec fn restraints_of<F>(t: SupportType<F>) -> Seq<(int, Restraint<F>)> {
    match t {
        SupportType::Fixed => seq![
            (0, Restraint::Rigid),
            (1, Restraint::Rigid),
            (2, Restraint::Rigid),
            (3, Restraint::Rigid),
            (4, Restraint::Rigid),
            (5, Restraint::Rigid),
        ],
        SupportType::Pinned => seq![(0, Restraint::Rigid), (1, Restraint::Rigid), (2, Restraint::Rigid)],
        SupportType::Roller { free_direction } => match free_direction {
            Direction::X => seq![(1, Restraint::Rigid), (2, Restraint::Rigid), (3, Restraint::Rigid)],
            Direction::Y => seq![(0, Restraint::Rigid), (2, Restraint::Rigid), (4, Restraint::Rigid)],
            Direction::Z => seq![(0, Restraint::Rigid), (1, Restraint::Rigid), (5, Restraint::Rigid)],
        },
        SupportType::ElasticSpring { stiffness } => spring(0, stiffness.tx) + spring(1, stiffness.ty)
            + spring(2, stiffness.tz) + spring(3, stiffness.rx) + spring(4, stiffness.ry) + spring(
            5,
            stiffness.rz,
        ),
    }
}

pub open spec fn spring<F>(dof: int, k: Option<F>) -> Seq<(int, Restraint<F>)> {
    match k {
        Some(k) => seq![(dof, Restraint::Spring(k))],
        None => seq![],
    }
}

/// The freedoms (local numbers) on which a support reports a reaction, in order.
pub open spec fn reaction_dofs_of<F>(t: SupportType<F>) -> Seq<int> {
    match t {
        SupportType::Fixed => seq![0, 1, 2, 3, 4, 5],
        SupportType::Pinned => seq![0, 1, 2],
        SupportType::Roller { free_direction } => match free_direction {
            Direction::X => seq![1, 2, 3],
            Direction::Y => seq![0, 2, 4],
            Direction::Z => seq![0, 1, 5],
        },
        SupportType::ElasticSpring { stiffness } => (if stiffness.tx is Some {
            seq![0]
        } else {
            seq![]
        }) + (if stiffness.ty is Some {
            seq![1]
        } else {
            seq![]
        }) + (if stiffness.tz is Some {
            seq![2]
        } else {
            seq![]
        }) + (if stiffness.rx is Some {
            seq![3]
        } else {
            seq![]
        }) + (if stiffness.ry is Some {
            seq![4]
        } else {
            seq![]
        }) + (if stiffness.rz is Some {
            seq![5]
        } else {
            seq![]
        }),
    }
}

/// The boundary restraints of a list of supports, as (global freedom,
/// restraint) pairs: support after support, each in [`restraints_of`] order.
pub open spec fn boundary_restraints_of<F>(supports: Seq<Support<F>>) -> Seq<(int, Restraint<F>)>
    decreases supports.len(),
{
    if supports.len() == 0 {
        seq![]
    } else {
        let s = supports.last();
        boundary_restraints_of(supports.drop_last()) + restraints_of(s.support_type).map_values(
            |p: (int, Restraint<F>)| (global_dof(s.node_id as int, p.0), p.1),
        )
    }
}

/// The local freedoms a two-dimensional frame element works with at each of
/// its two nodes: two translations in its plane and the rotation about the
/// normal of the plane.
pub open spec fn frame_dofs(plane: Plane) -> Seq<int> {
    match plane {
        Plane::XY => seq![0, 1, 5],
        Plane::XZ => seq![0, 2, 4],
        Plane::YZ => seq![1, 2, 3],
    }
}

/// The local freedoms a two-dimensional frame leaves without stiffness: the
/// translation out of its plane and the two rotations about in-plane axes.
pub open spec fn out_of_plane_dofs_of(plane: Plane) -> Seq<int> {
    match plane {
        Plane::XY => seq![2, 3, 4],
        Plane::XZ => seq![1, 3, 5],
        Plane::YZ => seq![0, 4, 5],
    }
}

impl Plane {
    /// The local freedom of each of the six freedoms of a frame element in
    /// this plane: those of its first node, then those of its second.
    pub fn dof_mapping(&self) -> (m: [usize; 6])
        ensures
            m@.map_values(|d: usize| d as int) == frame_dofs(*self) + frame_dofs(*self),
    {
        let m: [usize; 6] = match self {
            Plane::XY => [0, 1, 5, 0, 1, 5],
            Plane::XZ => [0, 2, 4, 0, 2, 4],
            Plane::YZ => [1, 2, 3, 1, 2, 3],
        };
        assert(m@.map_values(|d: usize| d as int) =~= frame_dofs(*self) + frame_dofs(*self));
        m
    }

    /// The freedoms that a frame element in this plane leaves without stiffness.
    pub fn out_of_plane_dofs(&self) -> (v: Vec<usize>)
        ensures
            v@.map_values(|d: usize| d as int) == out_of_plane_dofs_of(*self),
    {
        let v = match self {
            Plane::XY => vec![2, 3, 4],
            Plane::XZ => vec![1, 3, 5],
            Plane::YZ => vec![0, 4, 5],
        };
        assert(v@.map_values(|d: usize| d as int) =~= out_of_plane_dofs_of(*self));
        v
    }
}


pub open spec fn beam_dofs(node_i: int, node_j: int) -> Seq<int> {
    Seq::new(12, |k: int| if k < 6 { global_dof(node_i, k) } else { global_dof(node_j, k - 6) })
}

pub open spec fn frame_element_dofs(node_i: int, node_j: int, plane: Plane) -> Seq<int> {
    Seq::new(
        6,
        |k: int|
            if k < 3 {
                global_dof(node_i, frame_dofs(plane)[k])
            } else {
                global_dof(node_j, frame_dofs(plane)[k - 3])
            },
    )
}

impl GlobalAssembler {
    /// The global number of freedom `local` of node `node_id`.
    pub fn dof_index(node_id: usize, local: usize) -> (d: usize)
        requires
            local < DOFS_PER_NODE,
            node_id * 6 + local <= usize::MAX,
        ensures
            d == global_dof(node_id as int, local as int),
    {
        node_id * 6 + local
    }

    /// The freedoms a support holds and how (see [`restraints_of`]).
    pub fn support_restraints<F: Copy>(support_type: &SupportType<F>) -> (v: Vec<(usize, Restraint<F>)>)
        ensures
            v@.map_values(|p: (usize, Restraint<F>)| (p.0 as int, p.1)) == restraints_of(*support_type),
    {
        let mut v: Vec<(usize, Restraint<F>)> = Vec::new();
        match support_type {
            SupportType::Fixed => {
                v.push((0, Restraint::Rigid));
                v.push((1, Restraint::Rigid));
                v.push((2, Restraint::Rigid));
                v.push((3, Restraint::Rigid));
                v.push((4, Restraint::Rigid));
                v.push((5, Restraint::Rigid));
            },
            SupportType::Pinned => {
                v.push((0, Restraint::Rigid));
                v.push((1, Restraint::Rigid));
                v.push((2, Restraint::Rigid));
            },
            SupportType::Roller { free_direction } => match free_direction {
                Direction::X => {
                    v.push((1, Restraint::Rigid));
                    v.push((2, Restraint::Rigid));
                    v.push((3, Restraint::Rigid));
                },
                Direction::Y => {
                    v.push((0, Restraint::Rigid));
                    v.push((2, Restraint::Rigid));
                    v.push((4, Restraint::Rigid));
                },
                Direction::Z => {
                    v.push((0, Restraint::Rigid));
                    v.push((1, Restraint::Rigid));
                    v.push((5, Restraint::Rigid));
                },
            },
            SupportType::ElasticSpring { stiffness } => {
                if let Some(k) = stiffness.tx {
                    v.push((0, Restraint::Spring(k)));
                }
                if let Some(k) = stiffness.ty {
                    v.push((1, Restraint::Spring(k)));
                }
                if let Some(k) = stiffness.tz {
                    v.push((2, Restraint::Spring(k)));
                }
                if let Some(k) = stiffness.rx {
                    v.push((3, Restraint::Spring(k)));
                }
                if let Some(k) = stiffness.ry {
                    v.push((4, Restraint::Spring(k)));
                }
                if let Some(k) = stiffness.rz {
                    v.push((5, Restraint::Spring(k)));
                }
            },
        }
        assert(v@.map_values(|p: (usize, Restraint<F>)| (p.0 as int, p.1)) =~= restraints_of(
            *support_type,
        ));
        v
    }
}


impl GlobalAssembler {
    /// The freedoms on which a support reports a reaction (see [`reaction_dofs_of`]).
    pub fn reaction_dofs<F>(support_type: &SupportType<F>) -> (v: Vec<usize>)
        ensures
            v@.map_values(|d: usize| d as int) == reaction_dofs_of(*support_type),
    {
        let mut v: Vec<usize> = Vec::new();
        match support_type {
            SupportType::Fixed => {
                v.push(0);
                v.push(1);
                v.push(2);
                v.push(3);
                v.push(4);
                v.push(5);
            },
            SupportType::Pinned => {
                v.push(0);
                v.push(1);
                v.push(2);
            },
            SupportType::Roller { free_direction } => {
                let free_translation: usize = match free_direction {
                    Direction::X => 0,
                    Direction::Y => 1,
                    Direction::Z => 2,
                };
                let torsion: usize = match free_direction {
                    Direction::X => 3,
                    Direction::Y => 4,
                    Direction::Z => 5,
                };
                if free_translation != 0 {
                    v.push(0);
                }
                if free_translation != 1 {
                    v.push(1);
                }
                if free_translation != 2 {
                    v.push(2);
                }
                v.push(torsion);
            },
            SupportType::ElasticSpring { stiffness } => {
                if stiffness.tx.is_some() {
                    v.push(0);
                }
                if stiffness.ty.is_some() {
                    v.push(1);
                }
                if stiffness.tz.is_some() {
                    v.push(2);
                }
                if stiffness.rx.is_some() {
                    v.push(3);
                }
                if stiffness.ry.is_some() {
                    v.push(4);
                }
                if stiffness.rz.is_some() {
                    v.push(5);
                }
            },
        }
        assert(v@.map_values(|d: usize| d as int) =~= reaction_dofs_of(*support_type));
        v
    }

    /// The boundary restraints of all supports of the model, as (global
    /// freedom, restraint) pairs, support after support.
    #[verifier::rlimit(60)]
    pub fn boundary_restraints<F: Copy>(model: &StructuralModel<F>) -> (v: Vec<(usize, Restraint<F>)>)
        requires
            forall|k: int|
                0 <= k < model.supports@.len() ==> #[trigger] model.supports@[k].node_id * 6 + 6
                    <= usize::MAX,
        ensures
            v@.map_values(|p: (usize, Restraint<F>)| (p.0 as int, p.1)) == boundary_restraints_of(
                model.supports@,
            ),
    {
        let mut v: Vec<(usize, Restraint<F>)> = Vec::new();
        let mut i: usize = 0;
        while i < model.supports.len()
            invariant
                i <= model.supports.len(),
                forall|k: int|
                    0 <= k < model.supports@.len() ==> #[trigger] model.supports@[k].node_id * 6 + 6
                        <= usize::MAX,
                v@.map_values(|p: (usize, Restraint<F>)| (p.0 as int, p.1))
                    == boundary_restraints_of(model.supports@.take(i as int)),
            decreases model.supports.len() - i,
        {
            let support = &model.supports[i];
            let local = Self::support_restraints(&support.support_type);
            let ghost before = v@;
            let mut j: usize = 0;
            while j < local.len()
                invariant
                    j <= local.len(),
                    support.node_id * 6 + 6 <= usize::MAX,
                    local@.map_values(|p: (usize, Restraint<F>)| (p.0 as int, p.1)) == restraints_of(
                        support.support_type,
                    ),
                    v@ == before + local@.take(j as int).map_values(
                        |p: (usize, Restraint<F>)| ((support.node_id * 6 + p.0) as usize, p.1),
                    ),
                decreases local.len() - j,
            {
                let (d, r) = local[j];
                proof {
                    lemma_restraints_in_range(support.support_type);
                    assert(local@.map_values(|p: (usize, Restraint<F>)| (p.0 as int, p.1))[j as int]
                        == restraints_of(support.support_type)[j as int]);
                }
                v.push((Self::dof_index(support.node_id, d), r));
                proof {
                    assert(local@.take(j + 1) =~= local@.take(j as int).push(local@[j as int]));
                    assert(v@ =~= before + local@.take(j + 1).map_values(
                        |p: (usize, Restraint<F>)| ((support.node_id * 6 + p.0) as usize, p.1),
                    ));
                }
                j += 1;
            }
            proof {
                assert(local@.take(local@.len() as int) =~= local@);
                let t = model.supports@.take(i + 1);
                assert(t.drop_last() =~= model.supports@.take(i as int));
                assert(t.last() == *support);
                assert(v@.map_values(|p: (usize, Restraint<F>)| (p.0 as int, p.1)) =~= before.map_values(
                    |p: (usize, Restraint<F>)| (p.0 as int, p.1),
                ) + restraints_of(support.support_type).map_values(
                    |p: (int, Restraint<F>)| (global_dof(support.node_id as int, p.0), p.1),
                ));
            }
            i += 1;
        }
        proof {
            assert(model.supports@.take(model.supports@.len() as int) =~= model.supports@);
        }
        v
    }
}


/// Every freedom a support holds is one of the six of its node.
pub proof fn lemma_restraints_in_range<F>(t: SupportType<F>)
    ensures
        forall|k: int|
            0 <= k < restraints_of(t).len() ==> 0 <= #[trigger] restraints_of(t)[k].0 < 6,
{
    match t {
        SupportType::ElasticSpring { stiffness } => {
            let s = restraints_of(t);
            assert forall|k: int| 0 <= k < s.len() implies 0 <= #[trigger] s[k].0 < 6 by {
                let a = spring(0, stiffness.tx);
                let b = spring(1, stiffness.ty);
                let c = spring(2, stiffness.tz);
                let d = spring(3, stiffness.rx);
                let e = spring(4, stiffness.ry);
                let f = spring(5, stiffness.rz);
                assert(s == a + b + c + d + e + f);
                assert(forall|m: int| 0 <= m < a.len() ==> a[m].0 == 0);
                assert(forall|m: int| 0 <= m < b.len() ==> b[m].0 == 1);
                assert(forall|m: int| 0 <= m < c.len() ==> c[m].0 == 2);
                assert(forall|m: int| 0 <= m < d.len() ==> d[m].0 == 3);
                assert(forall|m: int| 0 <= m < e.len() ==> e[m].0 == 4);
                assert(forall|m: int| 0 <= m < f.len() ==> f[m].0 == 5);
            }
        },
        _ => {},
    }
}


impl GlobalAssembler {
    /// The twelve global freedoms of a beam between `node_i` and `node_j`: the
    /// six of `node_i`, then the six of `node_j`.
    pub fn beam_element_dofs(node_i: usize, node_j: usize) -> (v: Vec<usize>)
        requires
            node_i * 6 + 6 <= usize::MAX,
            node_j * 6 + 6 <= usize::MAX,
        ensures
            v@.map_values(|d: usize| d as int) == beam_dofs(node_i as int, node_j as int),
    {
        let mut v: Vec<usize> = Vec::new();
        let mut k: usize = 0;
        while k < 12
            invariant
                k <= 12,
                node_i * 6 + 6 <= usize::MAX,
                node_j * 6 + 6 <= usize::MAX,
                v@.map_values(|d: usize| d as int) == beam_dofs(node_i as int, node_j as int).take(
                    k as int,
                ),
            decreases 12 - k,
        {
            let ghost before = v@;
            if k < 6 {
                v.push(Self::dof_index(node_i, k));
            } else {
                v.push(Self::dof_index(node_j, k - 6));
            }
            proof {
                let whole = beam_dofs(node_i as int, node_j as int);
                assert(v@.map_values(|d: usize| d as int) =~= before.map_values(|d: usize| d as int).push(
                    whole[k as int],
                ));
                assert(whole.take(k + 1) =~= whole.take(k as int).push(whole[k as int]));
            }
            k += 1;
        }
        proof {
            assert(beam_dofs(node_i as int, node_j as int).take(12) =~= beam_dofs(
                node_i as int,
                node_j as int,
            ));
        }
        v
    }

    /// The six global freedoms of a frame element in `plane` between `node_i`
    /// and `node_j`: its three freedoms at `node_i`, then at `node_j`.
    pub fn frame_element_dofs(node_i: usize, node_j: usize, plane: Plane) -> (v: Vec<usize>)
        requires
            node_i * 6 + 6 <= usize::MAX,
            node_j * 6 + 6 <= usize::MAX,
        ensures
            v@.map_values(|d: usize| d as int) == frame_element_dofs(
                node_i as int,
                node_j as int,
                plane,
            ),
    {
        let map = plane.dof_mapping();
        let mut v: Vec<usize> = Vec::new();
        let mut k: usize = 0;
        while k < 6
            invariant
                k <= 6,
                node_i * 6 + 6 <= usize::MAX,
                node_j * 6 + 6 <= usize::MAX,
                map@.map_values(|d: usize| d as int) == frame_dofs(plane) + frame_dofs(plane),
                v@.map_values(|d: usize| d as int) == frame_element_dofs(
                    node_i as int,
                    node_j as int,
                    plane,
                ).take(k as int),
            decreases 6 - k,
        {
            proof {
                assert(map@.map_values(|d: usize| d as int)[k as int] == map@[k as int] as int);
                assert((frame_dofs(plane) + frame_dofs(plane))[k as int] < 6);
            }
            let ghost before = v@;
            if k < 3 {
                v.push(Self::dof_index(node_i, map[k]));
            } else {
                v.push(Self::dof_index(node_j, map[k]));
            }
            proof {
                let whole = frame_element_dofs(node_i as int, node_j as int, plane);
                assert(map@[k as int] as int == (frame_dofs(plane) + frame_dofs(plane))[k as int]);
                assert(v@.map_values(|d: usize| d as int) =~= before.map_values(|d: usize| d as int).push(
                    whole[k as int],
                ));
                assert(whole.take(k + 1) =~= whole.take(k as int).push(whole[k as int]));
            }
            k += 1;
        }
        proof {
            assert(frame_element_dofs(node_i as int, node_j as int, plane).take(6)
                =~= frame_element_dofs(node_i as int, node_j as int, plane));
        }
        v
    }
}

/// The global freedoms that the stiffness matrix of `e` couples, in the order
/// of its rows: the six in-plane freedoms of a two-dimensional frame element,
/// the twelve of a beam or three-dimensional frame; shell and solid elements
/// contribute no stiffness.
pub open spec fn stiffness_dofs_of<F>(e: Element<F>) -> Option<Seq<int>> {
    match e.element_type {
        ElementType::Frame2D { plane } => Some(
            frame_element_dofs(e.connectivity@[0] as int, e.connectivity@[1] as int, plane),
        ),
        ElementType::Beam1D { .. } | ElementType::Frame3D => Some(
            beam_dofs(e.connectivity@[0] as int, e.connectivity@[1] as int),
        ),
        _ => None,
    }
}

/// The global freedoms whose displacements give the end forces of `e`: the
/// twelve of its two nodes for every line element; shell and solid elements
/// report no forces.
pub open spec fn force_dofs_of<F>(e: Element<F>) -> Option<Seq<int>> {
    match e.element_type {
        ElementType::Beam1D { .. } | ElementType::Frame2D { .. } | ElementType::Frame3D => Some(
            beam_dofs(e.connectivity@[0] as int, e.connectivity@[1] as int),
        ),
        _ => None,
    }
}

/// The first two nodes of `e` can be numbered.
pub open spec fn numbered_ends<F>(e: Element<F>) -> bool {
    &&& e.connectivity@.len() >= 2
    &&& e.connectivity@[0] * 6 + 6 <= usize::MAX
    &&& e.connectivity@[1] * 6 + 6 <= usize::MAX
}

/// The elements among the first `n` of `elements` that report end forces,
/// in model order, each as its position and the freedoms of its forces (see
/// [`force_dofs_of`]).
pub open spec fn force_plan<F>(elements: Seq<Element<F>>, n: int) -> Seq<(int, Seq<int>)>
    decreases n,
{
    if n <= 0 {
        seq![]
    } else {
        force_plan(elements, n - 1) + match force_dofs_of(elements[n - 1]) {
            Some(d) => seq![(n - 1, d)],
            None => seq![],
        }
    }
}

/// Every line element of `elements` has two numbered end nodes.
pub open spec fn line_ends_numbered<F>(elements: Seq<Element<F>>) -> bool {
    forall|k: int| 0 <= k < elements.len() && (#[trigger] force_dofs_of(elements[k])) is Some ==> numbered_ends(elements[k])
}

impl GlobalAssembler {
    /// The global freedoms of the stiffness of `element` (see [`stiffness_dofs_of`]).
    pub fn stiffness_dofs<F>(element: &Element<F>) -> (r: Option<Vec<usize>>)
        requires
            numbered_ends(*element),
        ensures
            match r {
                Some(v) => stiffness_dofs_of(*element) == Some(v@.map_values(|d: usize| d as int)),
                None => stiffness_dofs_of(*element) is None,
            },
    {
        let a = element.connectivity[0];
        let b = element.connectivity[1];
        match element.element_type {
            ElementType::Frame2D { plane } => Some(Self::frame_element_dofs(a, b, plane)),
            ElementType::Beam1D { .. } | ElementType::Frame3D => Some(Self::beam_element_dofs(a, b)),
            _ => None,
        }
    }

    /// The line elements of the model in order, each as its position and the
    /// freedoms whose displacements give its end forces (see [`force_plan`]).
    pub fn force_elements<F>(model: &StructuralModel<F>) -> (r: Vec<(usize, Vec<usize>)>)
        requires
            line_ends_numbered(model.elements@),
        ensures
            r@.map_values(|p: (usize, Vec<usize>)| (p.0 as int, p.1@.map_values(|d: usize| d as int)))
                == force_plan(model.elements@, model.elements@.len() as int),
    {
        let mut r: Vec<(usize, Vec<usize>)> = Vec::new();
        let mut i: usize = 0;
        while i < model.elements.len()
            invariant
                i <= model.elements@.len(),
                line_ends_numbered(model.elements@),
                r@.map_values(|p: (usize, Vec<usize>)| (p.0 as int, p.1@.map_values(|d: usize| d as int)))
                    == force_plan(model.elements@, i as int),
            decreases model.elements@.len() - i,
        {
            let e = &model.elements[i];
            let ghost before = r@;
            if e.element_type.is_line_element() {
                proof {
                    assert(force_dofs_of(model.elements@[i as int]) is Some);
                }
                match Self::force_dofs(e) {
                    Some(d) => {
                        r.push((i, d));
                        proof {
                            assert(r@.map_values(
                                |p: (usize, Vec<usize>)| (p.0 as int, p.1@.map_values(|d: usize| d as int)),
                            ) =~= before.map_values(
                                |p: (usize, Vec<usize>)| (p.0 as int, p.1@.map_values(|d: usize| d as int)),
                            ).push((i as int, d@.map_values(|d: usize| d as int))));
                        }
                    },
                    None => {},
                }
            }
            i += 1;
        }
        r
    }

    /// The global freedoms whose displacements give the end forces of
    /// `element` (see [`force_dofs_of`]).
    pub fn force_dofs<F>(element: &Element<F>) -> (r: Option<Vec<usize>>)
        requires
            numbered_ends(*element),
        ensures
            match r {
                Some(v) => force_dofs_of(*element) == Some(v@.map_values(|d: usize| d as int)),
                None => force_dofs_of(*element) is None,
            },
    {
        let a = element.connectivity[0];
        let b = element.connectivity[1];
        match element.element_type {
            ElementType::Beam1D { .. } | ElementType::Frame2D { .. } | ElementType::Frame3D => Some(
                Self::beam_element_dofs(a, b),
            ),
            _ => None,
        }
    }
}

/// Reactions are reported on exactly the freedoms that the boundary
/// conditions hold, in the same order.
pub proof fn lemma_reactions_follow_restraints<F>(t: SupportType<F>)
    ensures
        reaction_dofs_of(t) == restraints_of(t).map_values(|p: (int, Restraint<F>)| p.0),
{
    match t {
        SupportType::ElasticSpring { stiffness } => {
            let a = spring(0, stiffness.tx);
            let b = spring(1, stiffness.ty);
            let c = spring(2, stiffness.tz);
            let d = spring(3, stiffness.rx);
            let e = spring(4, stiffness.ry);
            let f = spring(5, stiffness.rz);
            lemma_map_first_add(a, b);
            lemma_map_first_add(a + b, c);
            lemma_map_first_add(a + b + c, d);
            lemma_map_first_add(a + b + c + d, e);
            lemma_map_first_add(a + b + c + d + e, f);
            assert(a.map_values(|p: (int, Restraint<F>)| p.0) =~= (if stiffness.tx is Some {
                seq![0int]
            } else {
                seq![]
            }));
            assert(b.map_values(|p: (int, Restraint<F>)| p.0) =~= (if stiffness.ty is Some {
                seq![1int]
            } else {
                seq![]
            }));
            assert(c.map_values(|p: (int, Restraint<F>)| p.0) =~= (if stiffness.tz is Some {
                seq![2int]
            } else {
                seq![]
            }));
            assert(d.map_values(|p: (int, Restraint<F>)| p.0) =~= (if stiffness.rx is Some {
                seq![3int]
            } else {
                seq![]
            }));
            assert(e.map_values(|p: (int, Restraint<F>)| p.0) =~= (if stiffness.ry is Some {
                seq![4int]
            } else {
                seq![]
            }));
            assert(f.map_values(|p: (int, Restraint<F>)| p.0) =~= (if stiffness.rz is Some {
                seq![5int]
            } else {
                seq![]
            }));
        },
        _ => {
            assert(reaction_dofs_of(t) =~= restraints_of(t).map_values(
                |p: (int, Restraint<F>)| p.0,
            ));
        },
    }
}

proof fn lemma_map_first_add<F>(a: Seq<(int, Restraint<F>)>, b: Seq<(int, Restraint<F>)>)
    ensures
        (a + b).map_values(|p: (int, Restraint<F>)| p.0) == a.map_values(
            |p: (int, Restraint<F>)| p.0,
        ) + b.map_values(|p: (int, Restraint<F>)| p.0),
{
    assert((a + b).map_values(|p: (int, Restraint<F>)| p.0) =~= a.map_values(
        |p: (int, Restraint<F>)| p.0,
    ) + b.map_values(|p: (int, Restraint<F>)| p.0));
}

/// A two-dimensional frame's own freedoms and the freedoms it leaves without
/// stiffness split the six freedoms of a node: each freedom is in exactly one.
pub proof fn lemma_frame_dofs_partition(plane: Plane, d: int)
    requires
        0 <= d < 6,
    ensures
        frame_dofs(plane).contains(d) != out_of_plane_dofs_of(plane).contains(d),
{
    let a = frame_dofs(plane);
    let b = out_of_plane_dofs_of(plane);
    assert(a.contains(d) <==> (a[0] == d || a[1] == d || a[2] == d));
    assert(b.contains(d) <==> (b[0] == d || b[1] == d || b[2] == d));
}

/// For rigid supports (all but springs), the translations that the stability
/// check counts as restrained are exactly the translations the boundary
/// conditions hold.
pub proof fn lemma_translation_restraints_agree<F>(t: SupportType<F>, d: int)
    requires
        !(t is ElasticSpring),
        0 <= d < 3,
    ensures
        restrains(t, d) <==> restraints_of(t).map_values(|p: (int, Restraint<F>)| p.0).contains(
            d,
        ),
{
    let s = restraints_of(t).map_values(|p: (int, Restraint<F>)| p.0);
    let lits: Seq<int> = match t {
        SupportType::Fixed => seq![0, 1, 2, 3, 4, 5],
        SupportType::Pinned => seq![0, 1, 2],
        SupportType::Roller { free_direction } => match free_direction {
            Direction::X => seq![1, 2, 3],
            Direction::Y => seq![0, 2, 4],
            Direction::Z => seq![0, 1, 5],
        },
        SupportType::ElasticSpring { .. } => seq![],
    };
    assert(s =~= lits);
    if restrains(t, d) {
        let k = choose|k: int| 0 <= k < lits.len() && lits[k] == d;
        assert(lits[k] == d);
        assert(s.contains(d));
    } else {
        assert forall|k: int| 0 <= k < s.len() implies s[k] != d by {
            assert(s[k] == lits[k]);
        }
    }
}

/// The global numbering gives distinct freedoms distinct numbers, and the
/// freedoms of the first `node_count` nodes the numbers below `6 node_count`.
pub proof fn lemma_dof_numbering(n1: int, l1: int, n2: int, l2: int, node_count: int)
    requires
        0 <= n1,
        0 <= n2,
        0 <= l1 < 6,
        0 <= l2 < 6,
    ensures
        global_dof(n1, l1) == global_dof(n2, l2) ==> n1 == n2 && l1 == l2,
        n1 < node_count ==> 0 <= global_dof(n1, l1) < 6 * node_count,
{
    if global_dof(n1, l1) == global_dof(n2, l2) {
        assert(n1 == n2) by (nonlinear_arith)
            requires
                n1 * 6 + l1 == n2 * 6 + l2,
                0 <= l1 < 6,
                0 <= l2 < 6,
        ;
    }
    if n1 < node_count {
        assert(n1 * 6 + l1 < 6 * node_count) by (nonlinear_arith)
            requires
                0 <= n1 < node_count,
                0 <= l1 < 6,
        ;
    }
}


/// The (node, plane) pairs of the two-dimensional frame elements, element
/// after element, each element's nodes in connectivity order.
pub open spec fn frame_node_planes<F>(elements: Seq<Element<F>>) -> Seq<(usize, Plane)>
    decreases elements.len(),
{
    if elements.len() == 0 {
        seq![]
    } else {
        let e = elements.last();
        frame_node_planes(elements.drop_last()) + match e.element_type {
            ElementType::Frame2D { plane } => e.connectivity@.map_values(|n: usize| (n, plane)),
            _ => seq![],
        }
    }
}

/// The plane of the last pair of `pairs` on `node`, if any.
pub open spec fn last_plane_of(pairs: Seq<(usize, Plane)>, node: usize) -> Option<Plane>
    decreases pairs.len(),
{
    if pairs.len() == 0 {
        None
    } else if pairs.last().0 == node {
        Some(pairs.last().1)
    } else {
        last_plane_of(pairs.drop_last(), node)
    }
}

/// `r` lists each node of `pairs` once, with the plane of its last pair.
pub open spec fn lists_frame_nodes(r: Seq<(usize, Plane)>, pairs: Seq<(usize, Plane)>) -> bool {
    &&& forall|a: int, b: int| 0 <= a < b < r.len() ==> (#[trigger] r[a]).0 != (#[trigger] r[b]).0
    &&& forall|k: int| 0 <= k < r.len() ==> last_plane_of(pairs, (#[trigger] r[k]).0) == Some(r[k].1)
    &&& forall|t: int|
        0 <= t < pairs.len() ==> exists|k: int| 0 <= k < r.len() && (#[trigger] r[k]).0 == (#[trigger] pairs[t]).0
}

proof fn lemma_last_plane_push(pairs: Seq<(usize, Plane)>, p: (usize, Plane), node: usize)
    ensures
        last_plane_of(pairs.push(p), node) == if p.0 == node {
            Some(p.1)
        } else {
            last_plane_of(pairs, node)
        },
{
    assert(pairs.push(p).drop_last() =~= pairs);
}

impl GlobalAssembler {
    /// The nodes of two-dimensional frame elements, each once, with the plane of
    /// the last frame element on it: the freedoms such a node has outside that
    /// plane get a small stiffness so that the global matrix stays regular.
    pub fn frame_nodes<F>(model: &StructuralModel<F>) -> (r: Vec<(usize, Plane)>)
        ensures
            lists_frame_nodes(r@, frame_node_planes(model.elements@)),
    {
        let mut pairs: Vec<(usize, Plane)> = Vec::new();
        let mut i: usize = 0;
        while i < model.elements.len()
            invariant
                i <= model.elements@.len(),
                pairs@ == frame_node_planes(model.elements@.take(i as int)),
            decreases model.elements@.len() - i,
        {
            let e = &model.elements[i];
            let ghost before = pairs@;
            match e.element_type {
                ElementType::Frame2D { plane } => {
                    let mut j: usize = 0;
                    while j < e.connectivity.len()
                        invariant
                            j <= e.connectivity@.len(),
                            pairs@ == before + e.connectivity@.take(j as int).map_values(
                                |n: usize| (n, plane),
                            ),
                        decreases e.connectivity@.len() - j,
                    {
                        pairs.push((e.connectivity[j], plane));
                        proof {
                            assert(e.connectivity@.take(j + 1) =~= e.connectivity@.take(j as int).push(
                                e.connectivity@[j as int],
                            ));
                            assert(pairs@ =~= before + e.connectivity@.take(j + 1).map_values(
                                |n: usize| (n, plane),
                            ));
                        }
                        j += 1;
                    }
                    proof {
                        assert(e.connectivity@.take(e.connectivity@.len() as int) =~= e.connectivity@);
                    }
                },
                _ => {},
            }
            proof {
                let t = model.elements@.take(i + 1);
                assert(t.drop_last() =~= model.elements@.take(i as int));
                assert(t.last() == *e);
                assert(pairs@ =~= frame_node_planes(t));
            }
            i += 1;
        }
        proof {
            assert(model.elements@.take(model.elements@.len() as int) =~= model.elements@);
        }
        let mut r: Vec<(usize, Plane)> = Vec::new();
        let mut t: usize = 0;
        while t < pairs.len()
            invariant
                t <= pairs@.len(),
                lists_frame_nodes(r@, pairs@.take(t as int)),
            decreases pairs@.len() - t,
        {
            let (node, plane) = pairs[t];
            let ghost before = r@;
            let ghost prefix = pairs@.take(t as int);
            let ghost next = pairs@.take(t + 1);
            proof {
                assert(next =~= prefix.push((node, plane)));
            }
            let mut k: usize = 0;
            while k < r.len() && r[k].0 != node
                invariant
                    k <= r@.len(),
                    forall|j: int| 0 <= j < k ==> r@[j].0 != node,
                decreases r@.len() - k,
            {
                k += 1;
            }
            if k < r.len() {
                r.set(k, (node, plane));
                proof {
                    assert forall|a: int, b: int| 0 <= a < b < r@.len() implies (#[trigger] r@[a]).0
                        != (#[trigger] r@[b]).0 by {
                        assert(before[a].0 != before[b].0);
                    }
                    assert forall|j: int| 0 <= j < r@.len() implies last_plane_of(
                        next,
                        (#[trigger] r@[j]).0,
                    ) == Some(r@[j].1) by {
                        lemma_last_plane_push(prefix, (node, plane), r@[j].0);
                        if j != k {
                            assert(before[j].0 != before[k as int].0);
                        }
                    }
                    assert forall|u: int| 0 <= u < next.len() implies exists|j: int|
                        0 <= j < r@.len() && (#[trigger] r@[j]).0 == (#[trigger] next[u]).0 by {
                        if u < t {
                            assert(next[u] == prefix[u]);
                            let j = choose|j: int| 0 <= j < before.len() && (#[trigger] before[j]).0 == prefix[u].0;
                            assert(r@[j].0 == before[j].0);
                        } else {
                            assert(r@[k as int].0 == next[u].0);
                        }
                    }
                }
            } else {
                r.push((node, plane));
                proof {
                    assert forall|u: int| 0 <= u < prefix.len() implies (#[trigger] prefix[u]).0 != node by {
                        if prefix[u].0 == node {
                            let j = choose|j: int| 0 <= j < before.len() && (#[trigger] before[j]).0 == prefix[u].0;
                            assert(before[j].0 == node);
                        }
                    }
                    assert forall|a: int, b: int| 0 <= a < b < r@.len() implies (#[trigger] r@[a]).0
                        != (#[trigger] r@[b]).0 by {
                        if b < before.len() {
                            assert(before[a].0 != before[b].0);
                        }
                    }
                    assert forall|j: int| 0 <= j < r@.len() implies last_plane_of(
                        next,
                        (#[trigger] r@[j]).0,
                    ) == Some(r@[j].1) by {
                        lemma_last_plane_push(prefix, (node, plane), r@[j].0);
                    }
                    assert forall|u: int| 0 <= u < next.len() implies exists|j: int|
                        0 <= j < r@.len() && (#[trigger] r@[j]).0 == (#[trigger] next[u]).0 by {
                        if u < t {
                            assert(next[u] == prefix[u]);
                            let j = choose|j: int| 0 <= j < before.len() && (#[trigger] before[j]).0 == prefix[u].0;
                            assert(r@[j].0 == before[j].0);
                        } else {
                            assert(r@[before.len() as int].0 == next[u].0);
                        }
                    }
                }
            }
            t += 1;
        }
        proof {
            assert(pairs@.take(pairs@.len() as int) =~= pairs@);
        }
        r
    }
}


/// The vector of the freedoms `from` to `from + 2` of `u`.
pub open spec fn vector_at<F>(u: Seq<F>, from: int) -> Vector3D<F> {
    Vector3D { x: u[from], y: u[from + 1], z: u[from + 2] }
}

/// The displacement of each node read from the global solution `u`.
pub open spec fn nodal_displacements_of<F>(nodes: Seq<Node<F>>, u: Seq<F>) -> Seq<NodalDisplacement<F>> {
    nodes.map_values(
        |n: Node<F>|
            NodalDisplacement {
                node_id: n.id,
                translation: vector_at(u, global_dof(n.id as int, 0)),
                rotation: vector_at(u, global_dof(n.id as int, 3)),
            },
    )
}

/// The component `d` of a support's reaction: the residual at that freedom if
/// the support reports a reaction there, `zero` otherwise.
pub open spec fn reaction_component<F>(t: SupportType<F>, node: int, residual: Seq<F>, d: int, zero: F) -> F {
    if reaction_dofs_of(t).contains(d) {
        residual[global_dof(node, d)]
    } else {
        zero
    }
}

/// The reaction of a support, from the residual of the equilibrium equations.
pub open spec fn reaction_of<F>(s: Support<F>, residual: Seq<F>, zero: F) -> SupportReaction<F> {
    let n = s.node_id as int;
    let t = s.support_type;
    SupportReaction {
        support_id: s.id,
        node_id: s.node_id,
        force: Vector3D {
            x: reaction_component(t, n, residual, 0, zero),
            y: reaction_component(t, n, residual, 1, zero),
            z: reaction_component(t, n, residual, 2, zero),
        },
        moment: Vector3D {
            x: reaction_component(t, n, residual, 3, zero),
            y: reaction_component(t, n, residual, 4, zero),
            z: reaction_component(t, n, residual, 5, zero),
        },
    }
}

impl GlobalAssembler {
    /// The entries of `u` at the freedoms `dofs`, in order.
    pub fn gather<F: Copy>(u: &Vec<F>, dofs: &Vec<usize>) -> (v: Vec<F>)
        requires
            forall|k: int| 0 <= k < dofs@.len() ==> #[trigger] dofs@[k] < u@.len(),
        ensures
            v@.len() == dofs@.len(),
            forall|k: int| 0 <= k < dofs@.len() ==> #[trigger] v@[k] == u@[dofs@[k] as int],
    {
        let mut v: Vec<F> = Vec::new();
        let mut k: usize = 0;
        while k < dofs.len()
            invariant
                k <= dofs@.len(),
                forall|j: int| 0 <= j < dofs@.len() ==> #[trigger] dofs@[j] < u@.len(),
                v@.len() == k,
                forall|j: int| 0 <= j < k ==> #[trigger] v@[j] == u@[dofs@[j] as int],
            decreases dofs@.len() - k,
        {
            v.push(u[dofs[k]]);
            k += 1;
        }
        v
    }

    /// The displacement of every node, in node order, read from the global
    /// solution `u`: translations at the node's first three freedoms,
    /// rotations at the next three.
    pub fn nodal_displacements<F: Copy>(nodes: &Vec<Node<F>>, u: &Vec<F>) -> (d: Vec<NodalDisplacement<F>>)
        requires
            forall|k: int| 0 <= k < nodes@.len() ==> #[trigger] nodes@[k].id * 6 + 6 <= u@.len(),
        ensures
            d@ == nodal_displacements_of(nodes@, u@),
    {
        let mut d: Vec<NodalDisplacement<F>> = Vec::new();
        let mut i: usize = 0;
        while i < nodes.len()
            invariant
                i <= nodes@.len(),
                forall|k: int| 0 <= k < nodes@.len() ==> #[trigger] nodes@[k].id * 6 + 6 <= u@.len(),
                d@ == nodal_displacements_of(nodes@.take(i as int), u@),
            decreases nodes@.len() - i,
        {
            let id = nodes[i].id;
            let _ = u.len();
            proof {
                assert(nodes@[i as int].id * 6 + 6 <= u@.len());
            }
            let base = id * 6;
            let translation = Vector3D { x: u[base], y: u[base + 1], z: u[base + 2] };
            let rotation = Vector3D { x: u[base + 3], y: u[base + 4], z: u[base + 5] };
            d.push(NodalDisplacement::new(id, translation, rotation));
            proof {
                assert(nodal_displacements_of(nodes@.take(i + 1), u@) =~= nodal_displacements_of(
                    nodes@.take(i as int),
                    u@,
                ).push(nodal_displacements_of(nodes@, u@)[i as int]));
            }
            i += 1;
        }
        proof {
            assert(nodes@.take(nodes@.len() as int) =~= nodes@);
        }
        d
    }

    /// The reaction of every support, in support order: on each freedom the
    /// support reports (see [`reaction_dofs_of`]) the residual of the
    /// equilibrium equations there, `zero` on the others.
    pub fn reactions<F: Copy>(model: &StructuralModel<F>, residual: &Vec<F>, zero: F) -> (r: Vec<SupportReaction<F>>)
        requires
            forall|k: int|
                0 <= k < model.supports@.len() ==> #[trigger] model.supports@[k].node_id * 6 + 6
                    <= residual@.len(),
        ensures
            r@ == model.supports@.map_values(|s: Support<F>| reaction_of(s, residual@, zero)),
    {
        let mut r: Vec<SupportReaction<F>> = Vec::new();
        let mut i: usize = 0;
        while i < model.supports.len()
            invariant
                i <= model.supports@.len(),
                forall|k: int|
                    0 <= k < model.supports@.len() ==> #[trigger] model.supports@[k].node_id * 6 + 6
                        <= residual@.len(),
                r@ == model.supports@.take(i as int).map_values(
                    |s: Support<F>| reaction_of(s, residual@, zero),
                ),
            decreases model.supports@.len() - i,
        {
            let s = &model.supports[i];
            let dofs = Self::reaction_dofs(&s.support_type);
            let mut values: [F; 6] = [zero, zero, zero, zero, zero, zero];
            let mut j: usize = 0;
            let _ = residual.len();
            proof {
                assert(model.supports@[i as int].node_id * 6 + 6 <= residual@.len());
            }
            let base = s.node_id * 6;
            while j < dofs.len()
                invariant
                    j <= dofs@.len(),
                    base == s.node_id * 6,
                    base + 6 <= residual@.len(),
                    residual@.len() <= usize::MAX,
                    dofs@.map_values(|d: usize| d as int) == reaction_dofs_of(s.support_type),
                    forall|d: int|
                        0 <= d < 6 ==> #[trigger] values@[d] == if dofs@.take(j as int).contains(
                            d as usize,
                        ) {
                            residual@[base + d]
                        } else {
                            zero
                        },
                decreases dofs@.len() - j,
            {
                let d = dofs[j];
                proof {
                    lemma_reaction_dofs_in_range(s.support_type);
                    assert(dofs@.map_values(|d: usize| d as int)[j as int] == d as int);
                    assert(reaction_dofs_of(s.support_type)[j as int] < 6);
                    assert(d < 6);
                }
                values.set(d, residual[base + d]);
                proof {
                    let before = dofs@.take(j as int);
                    let after = dofs@.take(j + 1);
                    assert(after =~= before.push(d));
                    assert forall|e: int| 0 <= e < 6 implies #[trigger] values@[e] == if after.contains(
                        e as usize,
                    ) {
                        residual@[base + e]
                    } else {
                        zero
                    } by {
                        if e != d {
                            if after.contains(e as usize) {
                                let k = choose|k: int| 0 <= k < after.len() && after[k] == e as usize;
                                assert(before[k] == e as usize);
                            }
                        } else {
                            assert(after[j as int] == d);
                        }
                    }
                }
                j += 1;
            }
            proof {
                assert(dofs@.take(dofs@.len() as int) =~= dofs@);
                assert forall|d: int| 0 <= d < 6 implies dofs@.contains(d as usize) == reaction_dofs_of(
                    s.support_type,
                ).contains(d) by {
                    let m = dofs@.map_values(|x: usize| x as int);
                    if dofs@.contains(d as usize) {
                        let k = choose|k: int| 0 <= k < dofs@.len() && dofs@[k] == d as usize;
                        assert(m[k] == d);
                    }
                    if m.contains(d) {
                        let k = choose|k: int| 0 <= k < m.len() && m[k] == d;
                        assert(dofs@[k] == d as usize);
                    }
                }
            }
            let reaction = SupportReaction::new(
                s.id,
                s.node_id,
                Vector3D { x: values[0], y: values[1], z: values[2] },
                Vector3D { x: values[3], y: values[4], z: values[5] },
            );
            r.push(reaction);
            proof {
                assert(model.supports@.take(i + 1) =~= model.supports@.take(i as int).push(*s));
                assert(r@ =~= model.supports@.take(i + 1).map_values(
                    |s: Support<F>| reaction_of(s, residual@, zero),
                ));
            }
            i += 1;
        }
        proof {
            assert(model.supports@.take(model.supports@.len() as int) =~= model.supports@);
        }
        r
    }
}

/// Every freedom a support reports a reaction on is one of the six of its node.
pub proof fn lemma_reaction_dofs_in_range<F>(t: SupportType<F>)
    ensures
        forall|k: int|
            0 <= k < reaction_dofs_of(t).len() ==> 0 <= #[trigger] reaction_dofs_of(t)[k] < 6,
{
    lemma_reactions_follow_restraints(t);
    lemma_restraints_in_range(t);
    let r = restraints_of(t);
    assert forall|k: int| 0 <= k < reaction_dofs_of(t).len() implies 0
        <= #[trigger] reaction_dofs_of(t)[k] < 6 by {
        assert(reaction_dofs_of(t)[k] == r[k].0);
    }
}


/// Local freedom 1 of a beam is its shear along z and freedom 2 its shear
/// along y; the record lists each quantity at the first node, then the second.
/// Whether `r` is the force record of element `element_id` with local end forces `f`.
pub open spec fn is_beam_record<F>(r: ElementForces<F>, element_id: usize, f: Seq<F>, start: F, end: F) -> bool {
    &&& r.element_id == element_id
    &&& r.forces matches ElementForceComponents::Beam {
        axial,
        shear_y,
        shear_z,
        moment_y,
        moment_z,
        torsion,
        evaluation_points,
    } && axial@ == seq![f[0], f[6]] && shear_y@ == seq![f[2], f[8]] && shear_z@ == seq![f[1], f[7]]
        && moment_y@ == seq![f[4], f[10]] && moment_z@ == seq![f[5], f[11]] && torsion@ == seq![
        f[3],
        f[9],
    ] && evaluation_points@ == seq![start, end]
}


/// The index of an axis: 0 for x, 1 for y, 2 for z.  A node's freedom `a` is
/// the translation along axis `a`, freedom `3 + a` the rotation about it.
pub open spec fn axis_index(d: Direction) -> int {
    match d {
        Direction::X => 0,
        Direction::Y => 1,
        Direction::Z => 2,
    }
}

/// The freedoms a roller free along `d` must hold: the two translations
/// across `d` and the rotation about `d`.
pub open spec fn roller_holds(d: Direction, q: int) -> bool {
    (0 <= q < 3 && q != axis_index(d)) || q == 3 + axis_index(d)
}

/// A roller free along `d` holds rigidly exactly the two translations across
/// its rolling direction and the torsion about that direction, each once, and
/// reports reactions on exactly those freedoms.
pub proof fn lemma_roller_holds_torsion_about_rolling_axis<F>(d: Direction)
    ensures
        restraints_of(SupportType::<F>::Roller { free_direction: d }).len() == 3,
        forall|k: int|
            0 <= k < 3 ==> (#[trigger] restraints_of(SupportType::<F>::Roller { free_direction: d })[k]).1
                == Restraint::<F>::Rigid && roller_holds(
                d,
                restraints_of(SupportType::<F>::Roller { free_direction: d })[k].0,
            ),
        forall|k: int, j: int|
            0 <= k < j < 3 ==> (#[trigger] restraints_of(SupportType::<F>::Roller { free_direction: d })[k]).0
                != (#[trigger] restraints_of(SupportType::<F>::Roller { free_direction: d })[j]).0,
        reaction_dofs_of(SupportType::<F>::Roller { free_direction: d }).len() == 3,
        forall|q: int|
            #[trigger] reaction_dofs_of(SupportType::<F>::Roller { free_direction: d }).contains(q)
                <==> roller_holds(d, q),
{
    let t = SupportType::<F>::Roller { free_direction: d };
    let r = reaction_dofs_of(t);
    assert forall|q: int| #[trigger] r.contains(q) <==> roller_holds(d, q) by {
        if roller_holds(d, q) {
            match d {
                Direction::X => {
                    if q == 1 { assert(r[0] == q); } else if q == 2 { assert(r[1] == q); } else { assert(r[2] == q); }
                },
                Direction::Y => {
                    if q == 0 { assert(r[0] == q); } else if q == 2 { assert(r[1] == q); } else { assert(r[2] == q); }
                },
                Direction::Z => {
                    if q == 0 { assert(r[0] == q); } else if q == 1 { assert(r[1] == q); } else { assert(r[2] == q); }
                },
            }
        }
    }
}

/// A beam's local end forces have six entries per end, the first end first:
/// forces along x, y, z, then moments about x, y, z.  Its force record takes
/// the axial force from the force along x, the torsion from the moment about
/// x, the moment about y from the rotation freedom about y and the moment
/// about z from the one about z; `shear_y` is the force along local z and
/// `shear_z` the one along local y.
pub proof fn lemma_beam_record_components<F>(
    r: ElementForces<F>,
    element_id: usize,
    f: Seq<F>,
    start: F,
    end: F,
)
    requires
        is_beam_record(r, element_id, f, start, end),
    ensures
        r.element_id == element_id,
        r.forces matches ElementForceComponents::Beam {
            axial,
            shear_y,
            shear_z,
            moment_y,
            moment_z,
            torsion,
            evaluation_points,
        } && axial@.len() == 2 && moment_y@.len() == 2 && moment_z@.len() == 2 && torsion@.len() == 2
            && shear_y@.len() == 2 && shear_z@.len() == 2 && evaluation_points@ == seq![start, end]
            && forall|e: int|
            0 <= e < 2 ==> {
                &&& #[trigger] axial@[e] == f[6 * e]
                &&& shear_z@[e] == f[6 * e + 1]
                &&& shear_y@[e] == f[6 * e + 2]
                &&& torsion@[e] == f[6 * e + 3]
                &&& moment_y@[e] == f[6 * e + 3 + 1]
                &&& moment_z@[e] == f[6 * e + 3 + 2]
            },
{
}

/// The displacement read for the `k`-th node has that node's identifier, its
/// translations from the node's first three freedoms `6 id`, `6 id + 1`,
/// `6 id + 2` (along x, y, z) and its rotations from the next three (about
/// x, y, z); there is one displacement per node, in node order.
pub proof fn lemma_displacements_read_node_freedoms<F>(nodes: Seq<Node<F>>, u: Seq<F>, k: int)
    requires
        0 <= k < nodes.len(),
    ensures
        nodal_displacements_of(nodes, u).len() == nodes.len(),
        ({
            let d = nodal_displacements_of(nodes, u)[k];
            let b = 6 * nodes[k].id;
            &&& d.node_id == nodes[k].id
            &&& d.translation.x == u[b]
            &&& d.translation.y == u[b + 1]
            &&& d.translation.z == u[b + 2]
            &&& d.rotation.x == u[b + 3]
            &&& d.rotation.y == u[b + 4]
            &&& d.rotation.z == u[b + 5]
        }),
{
}


/// Whether a support of kind `t` holds local freedom `q`.
pub open spec fn holds_freedom<F>(t: SupportType<F>, q: int) -> bool {
    exists|k: int| 0 <= k < restraints_of(t).len() && (#[trigger] restraints_of(t)[k]).0 == q
}

/// The spring stiffness given for local freedom `q`: translations along x, y,
/// z, then rotations about x, y, z.
pub open spec fn stiffness_for<F>(k: SpringStiffness<F>, q: int) -> Option<F> {
    if q == 0 {
        k.tx
    } else if q == 1 {
        k.ty
    } else if q == 2 {
        k.tz
    } else if q == 3 {
        k.rx
    } else if q == 4 {
        k.ry
    } else if q == 5 {
        k.rz
    } else {
        None
    }
}

/// A fixed support holds all six freedoms of its node rigidly; a pinned one
/// holds the three translations rigidly and leaves the rotations free.
pub proof fn lemma_fixed_and_pinned_restraints<F>(q: int)
    ensures
        holds_freedom(SupportType::<F>::Fixed, q) <==> 0 <= q < 6,
        holds_freedom(SupportType::<F>::Pinned, q) <==> 0 <= q < 3,
        forall|k: int|
            0 <= k < restraints_of(SupportType::<F>::Fixed).len() ==> (#[trigger] restraints_of(
                SupportType::<F>::Fixed,
            )[k]).1 == Restraint::<F>::Rigid,
        forall|k: int|
            0 <= k < restraints_of(SupportType::<F>::Pinned).len() ==> (#[trigger] restraints_of(
                SupportType::<F>::Pinned,
            )[k]).1 == Restraint::<F>::Rigid,
{
    let f = restraints_of(SupportType::<F>::Fixed);
    let p = restraints_of(SupportType::<F>::Pinned);
    if 0 <= q < 6 {
        assert(f[q].0 == q);
    }
    if 0 <= q < 3 {
        assert(p[q].0 == q);
    }
}

/// An elastic support holds, in increasing order, exactly the freedoms whose
/// stiffness is given, each by a spring of that stiffness.
pub proof fn lemma_spring_restraints<F>(k: SpringStiffness<F>)
    ensures
        forall|j: int|
            0 <= j < restraints_of(SupportType::ElasticSpring { stiffness: k }).len() ==> {
                let (q, r) = #[trigger] restraints_of(SupportType::ElasticSpring { stiffness: k })[j];
                &&& 0 <= q < 6
                &&& stiffness_for(k, q) matches Some(v) && r == Restraint::Spring(v)
            },
        forall|a: int, b: int|
            0 <= a < b < restraints_of(SupportType::ElasticSpring { stiffness: k }).len() ==> (
            #[trigger] restraints_of(SupportType::ElasticSpring { stiffness: k })[a]).0 < (
            #[trigger] restraints_of(SupportType::ElasticSpring { stiffness: k })[b]).0,
        forall|q: int|
            0 <= q < 6 ==> (#[trigger] holds_freedom(SupportType::ElasticSpring { stiffness: k }, q)
                <==> stiffness_for(k, q) is Some),
{
    let t = SupportType::ElasticSpring { stiffness: k };
    let s0 = spring(0, k.tx);
    let s1 = s0 + spring(1, k.ty);
    let s2 = s1 + spring(2, k.tz);
    let s3 = s2 + spring(3, k.rx);
    let s4 = s3 + spring(4, k.ry);
    let s5 = s4 + spring(5, k.rz);
    assert(restraints_of(t) == s5);
    assert forall|q: int| 0 <= q < 6 implies (#[trigger] holds_freedom(t, q) <==> stiffness_for(k, q) is Some) by {
        if stiffness_for(k, q) is Some {
            let (pre, here) = if q == 0 {
                (Seq::<(int, Restraint<F>)>::empty(), spring(0, k.tx))
            } else if q == 1 {
                (s0, spring(1, k.ty))
            } else if q == 2 {
                (s1, spring(2, k.tz))
            } else if q == 3 {
                (s2, spring(3, k.rx))
            } else if q == 4 {
                (s3, spring(4, k.ry))
            } else {
                (s4, spring(5, k.rz))
            };
            assert(here.len() == 1 && here[0].0 == q);
            if q == 0 {
                assert(s5[0] == here[0]);
            } else if q == 1 {
                assert(s5[s0.len() as int] == here[0]);
            } else if q == 2 {
                assert(s5[s1.len() as int] == here[0]);
            } else if q == 3 {
                assert(s5[s2.len() as int] == here[0]);
            } else if q == 4 {
                assert(s5[s3.len() as int] == here[0]);
            } else {
                assert(s5[s4.len() as int] == here[0]);
            }
        }
    }
}

/// The plane's normal axis: z for XY, y for XZ, x for YZ.
pub open spec fn normal_axis(plane: Plane) -> int {
    match plane {
        Plane::XY => 2,
        Plane::XZ => 1,
        Plane::YZ => 0,
    }
}

/// A two-dimensional frame works with the two translations in its plane and
/// the rotation about the plane's normal; it leaves without stiffness the
/// translation along the normal and the rotations about the two in-plane axes.
pub proof fn lemma_frame_freedoms_follow_plane(plane: Plane, q: int)
    ensures
        frame_dofs(plane).len() == 3,
        frame_dofs(plane).contains(q) <==> ((0 <= q < 3 && q != normal_axis(plane)) || q == 3 + normal_axis(plane)),
        out_of_plane_dofs_of(plane).contains(q) <==> (q == normal_axis(plane) || (3 <= q < 6 && q != 3
            + normal_axis(plane))),
{
    let a = frame_dofs(plane);
    let b = out_of_plane_dofs_of(plane);
    if (0 <= q < 3 && q != normal_axis(plane)) || q == 3 + normal_axis(plane) {
        if a[0] == q {
        } else if a[1] == q {
        } else {
            assert(a[2] == q);
        }
    }
    if q == normal_axis(plane) || (3 <= q < 6 && q != 3 + normal_axis(plane)) {
        if b[0] == q {
        } else if b[1] == q {
        } else {
            assert(b[2] == q);
        }
    }
}

/// The reaction of a support is read from the residual at its own node: the
/// force along axis `a` is the residual at freedom `6 node + a` and the moment
/// about it the residual at `6 node + 3 + a` when the support holds that
/// freedom, and `zero` when it leaves it free.
pub proof fn lemma_reaction_reads_held_freedoms<F>(s: Support<F>, residual: Seq<F>, zero: F)
    ensures
        ({
            let r = reaction_of(s, residual, zero);
            let b = 6 * s.node_id;
            let t = s.support_type;
            &&& r.support_id == s.id
            &&& r.node_id == s.node_id
            &&& r.force.x == if holds_freedom(t, 0) { residual[b] } else { zero }
            &&& r.force.y == if holds_freedom(t, 1) { residual[b + 1] } else { zero }
            &&& r.force.z == if holds_freedom(t, 2) { residual[b + 2] } else { zero }
            &&& r.moment.x == if holds_freedom(t, 3) { residual[b + 3] } else { zero }
            &&& r.moment.y == if holds_freedom(t, 4) { residual[b + 4] } else { zero }
            &&& r.moment.z == if holds_freedom(t, 5) { residual[b + 5] } else { zero }
        }),
{
    let t = s.support_type;
    lemma_reactions_follow_restraints(t);
    assert forall|q: int| 0 <= q < 6 implies #[trigger] reaction_dofs_of(t).contains(q) == holds_freedom(t, q) by {
        if reaction_dofs_of(t).contains(q) {
            let k = choose|k: int| 0 <= k < reaction_dofs_of(t).len() && reaction_dofs_of(t)[k] == q;
            assert(restraints_of(t)[k].0 == q);
        }
        if holds_freedom(t, q) {
            let k = choose|k: int| 0 <= k < restraints_of(t).len() && (#[trigger] restraints_of(t)[k]).0 == q;
            assert(reaction_dofs_of(t)[k] == q);
        }
    }
    assert(reaction_dofs_of(t).contains(0) == holds_freedom(t, 0));
    assert(reaction_dofs_of(t).contains(1) == holds_freedom(t, 1));
    assert(reaction_dofs_of(t).contains(2) == holds_freedom(t, 2));
    assert(reaction_dofs_of(t).contains(3) == holds_freedom(t, 3));
    assert(reaction_dofs_of(t).contains(4) == holds_freedom(t, 4));
    assert(reaction_dofs_of(t).contains(5) == holds_freedom(t, 5));
}


/// A beam couples the six freedoms of its first node, then the six of its
/// second, each in local order; a two-dimensional frame couples, at each of
/// its two nodes in turn, the node's freedoms that the frame works with.
pub proof fn lemma_element_freedoms(node_i: int, node_j: int, plane: Plane, k: int)
    ensures
        beam_dofs(node_i, node_j).len() == 12,
        0 <= k < 6 ==> beam_dofs(node_i, node_j)[k] == 6 * node_i + k,
        6 <= k < 12 ==> beam_dofs(node_i, node_j)[k] == 6 * node_j + (k - 6),
        frame_element_dofs(node_i, node_j, plane).len() == 6,
        0 <= k < 3 ==> frame_element_dofs(node_i, node_j, plane)[k] == 6 * node_i + frame_dofs(plane)[k],
        3 <= k < 6 ==> frame_element_dofs(node_i, node_j, plane)[k] == 6 * node_j + frame_dofs(plane)[k
            - 3],
{
}

/// Line elements have stiffness on the freedoms of their two end nodes (six
/// for a two-dimensional frame, twelve for a beam or three-dimensional frame)
/// and report forces from all twelve; shells and solids have neither here.
pub proof fn lemma_line_element_freedoms<F>(e: Element<F>)
    ensures
        (e.element_type is Beam1D || e.element_type is Frame3D) ==> stiffness_dofs_of(e) == Some(
            beam_dofs(e.connectivity@[0] as int, e.connectivity@[1] as int),
        ),
        e.element_type is Frame2D ==> (stiffness_dofs_of(e) matches Some(d) && d.len() == 6),
        (e.element_type is Beam1D || e.element_type is Frame2D || e.element_type is Frame3D)
            ==> force_dofs_of(e) == Some(beam_dofs(e.connectivity@[0] as int, e.connectivity@[1] as int)),
        (e.element_type is Shell2D || e.element_type is Solid3D) ==> stiffness_dofs_of(e) is None
            && force_dofs_of(e) is None,
{
}

impl GlobalAssembler {
    /// The force record of a beam from its twelve local end forces (see
    /// [`is_beam_record`]).
    pub fn beam_forces<F: Copy>(element_id: usize, f: &Vec<F>, start: F, end: F) -> (r: ElementForces<F>)
        requires
            f@.len() == 12,
        ensures
            is_beam_record(r, element_id, f@, start, end),
    {
        let axial = vec![f[0], f[6]];
        let shear_y = vec![f[2], f[8]];
        let shear_z = vec![f[1], f[7]];
        let moment_y = vec![f[4], f[10]];
        let moment_z = vec![f[5], f[11]];
        let torsion = vec![f[3], f[9]];
        let evaluation_points = vec![start, end];
        proof {
            assert(axial@ =~= seq![f@[0], f@[6]]);
            assert(shear_y@ =~= seq![f@[2], f@[8]]);
            assert(shear_z@ =~= seq![f@[1], f@[7]]);
            assert(moment_y@ =~= seq![f@[4], f@[10]]);
            assert(moment_z@ =~= seq![f@[5], f@[11]]);
            assert(torsion@ =~= seq![f@[3], f@[9]]);
            assert(evaluation_points@ =~= seq![start, end]);
        }
        let r = ElementForces {
            element_id,
            forces: ElementForceComponents::Beam {
                axial,
                shear_y,
                shear_z,
                moment_y,
                moment_z,
                torsion,
                evaluation_points,
            },
        };
        r
    }
}

} // verus!
