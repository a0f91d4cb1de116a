use vstd::prelude::*;

use crate::clock::now_rfc3339;
use crate::structure::element::ElementId;
use crate::structure::geometry::Vector3D;
use crate::structure::node::NodeId;
use crate::structure::support::SupportId;

verus! {

/// Displacement and rotation of one node.
#[derive(Debug, Clone, PartialEq)]
pub struct NodalDisplacement<F> {
    pub node_id: NodeId,
    pub translation: Vector3D<F>,
    pub rotation: Vector3D<F>,
}

impl<F> NodalDisplacement<F> {
    pub fn new(node_id: NodeId, translation: Vector3D<F>, rotation: Vector3D<F>) -> (d: Self)
        ensures
            d == (NodalDisplacement { node_id, translation, rotation }),
    {
        NodalDisplacement { node_id, translation, rotation }
    }
}

/// Internal forces of one element at its evaluation points.
#[derive(Debug, Clone, PartialEq)]
pub struct ElementForces<F> {
    pub element_id: ElementId,
    pub forces: ElementForceComponents<F>,
}

#[derive(Debug, Clone, PartialEq)]
pub enum ElementForceComponents<F> {
    Beam {
        axial: Vec<F>,
        shear_y: Vec<F>,
        shear_z: Vec<F>,
        moment_y: Vec<F>,
        moment_z: Vec<F>,
        torsion: Vec<F>,
        evaluation_points: Vec<F>,
    },
    Shell {
        membrane_forces: Vec<(F, F, F)>,
        bending_moments: Vec<(F, F, F)>,
        shear_forces: Vec<(F, F)>,
        evaluation_points: Vec<(F, F)>,
    },
    Solid {
        stress_tensor: Vec<[F; 6]>,
        strain_tensor: Vec<[F; 6]>,
        evaluation_points: Vec<(F, F, F)>,
    },
}

/// The force and moment a support exerts on its node.
#[derive(Debug, Clone, PartialEq)]
pub struct SupportReaction<F> {
    pub support_id: SupportId,
    pub node_id: NodeId,
    pub force: Vector3D<F>,
    pub moment: Vector3D<F>,
}

impl<F> SupportReaction<F> {
    pub fn new(support_id: SupportId, node_id: NodeId, force: Vector3D<F>, moment: Vector3D<F>) -> (r:
        Self)
        ensures
            r == (SupportReaction { support_id, node_id, force, moment }),
    {
        SupportReaction { support_id, node_id, force, moment }
    }
}

#[derive(Debug, Clone, Copy, PartialEq, Eq, Structural)]
pub enum SolverBackend {
    CpuCholesky,
    CpuLU,
    CpuIterative,
    GpuCholesky,
    GpuIterative,
}

/// The backend recorded for a solver of the given name; names other than
/// the three CPU backend names count as `CpuCholesky`.
pub open spec fn backend_for_name(name: Seq<char>) -> SolverBackend {
    if name == "CpuCholesky"@ {
        SolverBackend::CpuCholesky
    } else if name == "CpuLU"@ {
        SolverBackend::CpuLU
    } else if name == "CpuIterative"@ {
        SolverBackend::CpuIterative
    } else {
        SolverBackend::CpuCholesky
    }
}

impl SolverBackend {
    /// The backend recorded for a solver of the given name (see [`backend_for_name`]).
    pub fn from_solver_name(name: &str) -> (b: SolverBackend)
        ensures
            b == backend_for_name(name@),
    {
        if crate::text::same_text(name, "CpuCholesky") {
            SolverBackend::CpuCholesky
        } else if crate::text::same_text(name, "CpuLU") {
            SolverBackend::CpuLU
        } else if crate::text::same_text(name, "CpuIterative") {
            SolverBackend::CpuIterative
        } else {
            SolverBackend::CpuCholesky
        }
    }
}

/// The version recorded in solver information.
pub open spec fn software_version_text() -> Seq<char> {
    "0.1.0"@
}

/// How the linear system was solved.
#[derive(Debug, PartialEq)]
pub struct SolverInfo<F> {
    pub solver_backend: SolverBackend,
    pub solve_time: std::time::Duration,
    pub iterations: Option<usize>,
    pub residual_norm: Option<F>,
    pub software_version: String,
}

impl<F> SolverInfo<F> {
    /// Information on a direct solve: no iteration count, no residual.
    pub fn new(solver_backend: SolverBackend, solve_time: std::time::Duration) -> (i: Self)
        ensures
            i.solver_backend == solver_backend,
            i.solve_time == solve_time,
            i.iterations is None,
            i.residual_norm is None,
            i.software_version@ == software_version_text(),
    {
        SolverInfo {
            solver_backend,
            solve_time,
            iterations: None,
            residual_norm: None,
            software_version: "0.1.0".to_string(),
        }
    }

    /// The information with an iteration count and the final residual norm.
    pub fn with_iterations(self, iterations: usize, residual_norm: F) -> (i: Self)
        ensures
            i.solver_backend == self.solver_backend,
            i.solve_time == self.solve_time,
            i.iterations == Some(iterations),
            i.residual_norm == Some(residual_norm),
            i.software_version == self.software_version,
    {
        let mut i = self;
        i.iterations = Some(iterations);
        i.residual_norm = Some(residual_norm);
        i
    }
}

/// Identification of the model a result was computed for.
#[derive(Debug, Clone, PartialEq, Eq)]
pub struct ModelSnapshot {
    pub model_hash: String,
    pub timestamp: String,
}

impl ModelSnapshot {
    /// A snapshot of the model with the given hash, stamped with the current time.
    pub fn new(model_hash: String) -> (s: Self)
        ensures
            s.model_hash == model_hash,
    {
        ModelSnapshot { model_hash, timestamp: now_rfc3339() }
    }
}

/// The results of an analysis.
#[derive(Debug, PartialEq)]
pub struct AnalysisResult<F> {
    pub model_snapshot: ModelSnapshot,
    pub displacements: Vec<NodalDisplacement<F>>,
    pub element_forces: Vec<ElementForces<F>>,
    pub reactions: Vec<SupportReaction<F>>,
    pub solver_info: SolverInfo<F>,
}

/// Position of the first entry of `ids` equal to `x`, or `ids.len()` when none is.
pub open spec fn first_index_of(ids: Seq<usize>, x: usize) -> int
    decreases ids.len(),
{
    if ids.len() == 0 {
        0
    } else if ids[0] == x {
        0
    } else {
        1 + first_index_of(ids.drop_first(), x)
    }
}

pub open spec fn displacement_node_ids<F>(s: Seq<NodalDisplacement<F>>) -> Seq<usize> {
    s.map_values(|d: NodalDisplacement<F>| d.node_id)
}

pub open spec fn force_element_ids<F>(s: Seq<ElementForces<F>>) -> Seq<usize> {
    s.map_values(|f: ElementForces<F>| f.element_id)
}

pub open spec fn reaction_support_ids<F>(s: Seq<SupportReaction<F>>) -> Seq<usize> {
    s.map_values(|r: SupportReaction<F>| r.support_id)
}

/// The beam force records of `s`, in order.
pub open spec fn beam_forces_of<F>(s: Seq<ElementForces<F>>) -> Seq<ElementForces<F>>
    decreases s.len(),
{
    if s.len() == 0 {
        seq![]
    } else {
        beam_forces_of(s.drop_last()) + if s.last().forces is Beam {
            seq![s.last()]
        } else {
            seq![]
        }
    }
}

proof fn lemma_first_index_step(ids: Seq<usize>, x: usize, i: int)
    requires
        0 <= i < ids.len(),
        forall|k: int| 0 <= k < i ==> ids[k] != x,
    ensures
        ids[i] == x ==> first_index_of(ids, x) == i,
    decreases i,
{
    if i > 0 {
        assert(ids[0] != x);
        assert forall|k: int| 0 <= k < i - 1 implies ids.drop_first()[k] != x by {
            assert(ids.drop_first()[k] == ids[k + 1]);
        }
        lemma_first_index_step(ids.drop_first(), x, i - 1);
    }
}

proof fn lemma_first_index_absent(ids: Seq<usize>, x: usize)
    requires
        forall|k: int| 0 <= k < ids.len() ==> ids[k] != x,
    ensures
        first_index_of(ids, x) == ids.len(),
    decreases ids.len(),
{
    if ids.len() > 0 {
        assert forall|k: int| 0 <= k < ids.len() - 1 implies ids.drop_first()[k] != x by {
            assert(ids.drop_first()[k] == ids[k + 1]);
        }
        lemma_first_index_absent(ids.drop_first(), x);
    }
}

/// Position of the first entry of `ids` equal to `x`, if any.
pub(crate) fn first_position(ids: &Vec<usize>, x: usize) -> (r: Option<usize>)
    ensures
        r matches Some(k) ==> k < ids@.len() && first_index_of(ids@, x) == k && ids@[k as int] == x,
        r is None ==> first_index_of(ids@, x) == ids@.len(),
{
    let mut k: usize = 0;
    while k < ids.len()
        invariant
            k <= ids@.len(),
            forall|j: int| 0 <= j < k ==> ids@[j] != x,
        decreases ids@.len() - k,
    {
        if ids[k] == x {
            proof {
                lemma_first_index_step(ids@, x, k as int);
            }
            return Some(k);
        }
        k += 1;
    }
    proof {
        lemma_first_index_absent(ids@, x);
    }
    None
}


impl<F> AnalysisResult<F> {
    pub fn new(
        model_snapshot: ModelSnapshot,
        displacements: Vec<NodalDisplacement<F>>,
        element_forces: Vec<ElementForces<F>>,
        reactions: Vec<SupportReaction<F>>,
        solver_info: SolverInfo<F>,
    ) -> (r: Self)
        ensures
            r == (AnalysisResult {
                model_snapshot,
                displacements,
                element_forces,
                reactions,
                solver_info,
            }),
    {
        AnalysisResult { model_snapshot, displacements, element_forces, reactions, solver_info }
    }

    /// The displacement of node `node_id`: the first one recorded for it.
    pub fn displacement_at_node(&self, node_id: NodeId) -> (r: Option<&NodalDisplacement<F>>)
        ensures
            ({
                let k = first_index_of(displacement_node_ids(self.displacements@), node_id);
                &&& k < self.displacements@.len() ==> r == Some(&self.displacements@[k])
                &&& k >= self.displacements@.len() ==> r is None
            }),
    {
        let mut ids: Vec<usize> = Vec::new();
        let mut i: usize = 0;
        while i < self.displacements.len()
            invariant
                i <= self.displacements@.len(),
                ids@ == displacement_node_ids(self.displacements@).take(i as int),
            decreases self.displacements@.len() - i,
        {
            ids.push(self.displacements[i].node_id);
            proof {
                assert(displacement_node_ids(self.displacements@).take(i + 1) =~= displacement_node_ids(
                    self.displacements@,
                ).take(i as int).push(self.displacements@[i as int].node_id));
            }
            i += 1;
        }
        proof {
            assert(displacement_node_ids(self.displacements@).take(self.displacements@.len() as int)
                =~= displacement_node_ids(self.displacements@));
        }
        match first_position(&ids, node_id) {
            Some(k) => Some(&self.displacements[k]),
            None => None,
        }
    }

    /// The forces of element `element_id`: the first record for it.
    pub fn forces_in_element(&self, element_id: ElementId) -> (r: Option<&ElementForces<F>>)
        ensures
            ({
                let k = first_index_of(force_element_ids(self.element_forces@), element_id);
                &&& k < self.element_forces@.len() ==> r == Some(&self.element_forces@[k])
                &&& k >= self.element_forces@.len() ==> r is None
            }),
    {
        let mut ids: Vec<usize> = Vec::new();
        let mut i: usize = 0;
        while i < self.element_forces.len()
            invariant
                i <= self.element_forces@.len(),
                ids@ == force_element_ids(self.element_forces@).take(i as int),
            decreases self.element_forces@.len() - i,
        {
            ids.push(self.element_forces[i].element_id);
            proof {
                assert(force_element_ids(self.element_forces@).take(i + 1) =~= force_element_ids(
                    self.element_forces@,
                ).take(i as int).push(self.element_forces@[i as int].element_id));
            }
            i += 1;
        }
        proof {
            assert(force_element_ids(self.element_forces@).take(self.element_forces@.len() as int)
                =~= force_element_ids(self.element_forces@));
        }
        match first_position(&ids, element_id) {
            Some(k) => Some(&self.element_forces[k]),
            None => None,
        }
    }

    /// The reaction of support `support_id`: the first one recorded for it.
    pub fn reaction_at_support(&self, support_id: SupportId) -> (r: Option<&SupportReaction<F>>)
        ensures
            ({
                let k = first_index_of(reaction_support_ids(self.reactions@), support_id);
                &&& k < self.reactions@.len() ==> r == Some(&self.reactions@[k])
                &&& k >= self.reactions@.len() ==> r is None
            }),
    {
        let mut ids: Vec<usize> = Vec::new();
        let mut i: usize = 0;
        while i < self.reactions.len()
            invariant
                i <= self.reactions@.len(),
                ids@ == reaction_support_ids(self.reactions@).take(i as int),
            decreases self.reactions@.len() - i,
        {
            ids.push(self.reactions[i].support_id);
            proof {
                assert(reaction_support_ids(self.reactions@).take(i + 1) =~= reaction_support_ids(
                    self.reactions@,
                ).take(i as int).push(self.reactions@[i as int].support_id));
            }
            i += 1;
        }
        proof {
            assert(reaction_support_ids(self.reactions@).take(self.reactions@.len() as int)
                =~= reaction_support_ids(self.reactions@));
        }
        match first_position(&ids, support_id) {
            Some(k) => Some(&self.reactions[k]),
            None => None,
        }
    }

    /// The force records of beam elements, in order.
    pub fn all_beam_forces(&self) -> (r: Vec<&ElementForces<F>>)
        ensures
            r@.map_values(|f: &ElementForces<F>| *f) == beam_forces_of(self.element_forces@),
    {
        let mut r: Vec<&ElementForces<F>> = Vec::new();
        let mut i: usize = 0;
        while i < self.element_forces.len()
            invariant
                i <= self.element_forces@.len(),
                r@.map_values(|f: &ElementForces<F>| *f) == beam_forces_of(
                    self.element_forces@.take(i as int),
                ),
            decreases self.element_forces@.len() - i,
        {
            let f = &self.element_forces[i];
            let ghost before = r@;
            let is_beam = match f.forces {
                ElementForceComponents::Beam { .. } => true,
                _ => false,
            };
            if is_beam {
                r.push(f);
            }
            proof {
                let t = self.element_forces@.take(i + 1);
                assert(t.drop_last() =~= self.element_forces@.take(i as int));
                assert(t.last() == *f);
                if is_beam {
                    assert(r@.map_values(|f: &ElementForces<F>| *f) =~= before.map_values(
                        |f: &ElementForces<F>| *f,
                    ).push(*f));
                } else {
                    assert(r@ == before);
                }
                assert(r@.map_values(|f: &ElementForces<F>| *f) =~= beam_forces_of(t));
            }
            i += 1;
        }
        proof {
            assert(self.element_forces@.take(self.element_forces@.len() as int)
                =~= self.element_forces@);
        }
        r
    }
}

} // verus!
