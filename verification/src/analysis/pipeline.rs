use vstd::prelude::*;

use crate::audit::trail::{AuditEntry, AuditTrail, AuditValue};
use crate::structure::model::StructuralModel;

verus! {

/// Where a linear static analysis stands: the step it is about to take.
#[derive(Debug, Clone, Copy, PartialEq, Eq, Structural)]
pub enum PipelineStage {
    /// Nothing done yet.
    Start,
    /// The global stiffness matrix is being assembled.
    Stiffness,
    /// The load vector is being assembled.
    Loads,
    /// The boundary conditions are being applied.
    Boundary,
    /// The linear system is being solved.
    Solve,
    /// Element forces are being recovered.
    Forces,
    /// Support reactions are being computed.
    Reactions,
    /// Equilibrium is being checked.
    Equilibrium,
    /// The analysis is complete.
    Done,
}

/// What the numeric work of a step reports.
#[derive(Debug, Clone, Copy, PartialEq)]
pub enum PipelineEvent<F> {
    /// Nothing to report: the step needs no figures.
    Proceed,
    Assembled { matrix_size: usize, nnz: usize },
    LoadsAssembled { num_dofs: usize, load_norm: F },
    BoundaryApplied { num_dofs: usize },
    Solved { solve_time_ms: F, displacement_norm: F },
    SolveFailed,
    ForcesRecovered { num_elements: usize },
    ReactionsComputed { num_reactions: usize },
    EquilibriumChecked { imbalance: F, satisfied: bool },
}

/// A detail value as the pipeline records it, with texts as character
/// sequences.
pub enum DetailSpec<F> {
    Text(Seq<char>),
    Integer(i64),
    Float(F),
    Boolean(bool),
}

/// Whether the recorded value `v` is the value `d`.
pub open spec fn value_is<F>(v: AuditValue<F>, d: DetailSpec<F>) -> bool {
    match (v, d) {
        (AuditValue::String(s), DetailSpec::Text(t)) => s@ == t,
        (AuditValue::Integer(a), DetailSpec::Integer(b)) => a == b,
        (AuditValue::Float(a), DetailSpec::Float(b)) => a == b,
        (AuditValue::Boolean(a), DetailSpec::Boolean(b)) => a == b,
        _ => false,
    }
}

/// An entry to record: its action and its named details, in order.
pub type EntrySpec<F> = (Seq<char>, Seq<(Seq<char>, DetailSpec<F>)>);

/// Whether `e` records the action and the details of `s`.
pub open spec fn entry_is<F>(e: AuditEntry<F>, s: EntrySpec<F>) -> bool {
    &&& e.action@ == s.0
    &&& e.details@.len() == s.1.len()
    &&& forall|j: int|
        0 <= j < s.1.len() ==> (#[trigger] e.details@[j]).0@ == s.1[j].0 && value_is(e.details@[j].1, s.1[j].1)
}

/// Whether `entries` record exactly `specs`, one entry each, in order.
pub open spec fn entries_are<F>(entries: Seq<AuditEntry<F>>, specs: Seq<EntrySpec<F>>) -> bool {
    &&& entries.len() == specs.len()
    &&& forall|k: int| 0 <= k < specs.len() ==> entry_is(#[trigger] entries[k], specs[k])
}

/// The entries a step records.  Each step records what the work before it
/// found and announces the work that follows; a failed solve, an event that
/// does not belong to the stage, and the finished analysis record nothing.
pub open spec fn step_entries<F>(
    model: StructuralModel<F>,
    solver_name: Seq<char>,
    stage: PipelineStage,
    event: PipelineEvent<F>,
) -> Seq<EntrySpec<F>> {
    match (stage, event) {
        (PipelineStage::Start, PipelineEvent::Proceed) => seq![
            ("start_analysis"@, seq![]),
            (
                "assemble_global_stiffness"@,
                seq![
                    ("num_elements"@, DetailSpec::Integer(model.elements.len() as i64)),
                    ("num_nodes"@, DetailSpec::Integer(model.nodes.len() as i64)),
                ],
            ),
        ],
        (PipelineStage::Stiffness, PipelineEvent::Assembled { matrix_size, nnz }) => seq![
            (
                "stiffness_matrix_assembled"@,
                seq![
                    ("matrix_size"@, DetailSpec::Integer(matrix_size as i64)),
                    ("nnz"@, DetailSpec::Integer(nnz as i64)),
                ],
            ),
            ("assemble_load_vector"@, seq![]),
        ],
        (PipelineStage::Loads, PipelineEvent::LoadsAssembled { num_dofs, load_norm }) => seq![
            (
                "load_vector_assembled"@,
                seq![
                    ("num_dofs"@, DetailSpec::Integer(num_dofs as i64)),
                    ("load_norm"@, DetailSpec::Float(load_norm)),
                ],
            ),
            (
                "apply_boundary_conditions"@,
                seq![
                    ("num_supports"@, DetailSpec::Integer(model.supports.len() as i64)),
                    ("strategy"@, DetailSpec::Text("Elimination"@)),
                ],
            ),
        ],
        (PipelineStage::Boundary, PipelineEvent::BoundaryApplied { num_dofs }) => seq![
            (
                "solve_linear_system"@,
                seq![
                    ("solver"@, DetailSpec::Text(solver_name)),
                    ("dofs"@, DetailSpec::Integer(num_dofs as i64)),
                ],
            ),
        ],
        (PipelineStage::Solve, PipelineEvent::Solved { solve_time_ms, displacement_norm }) => seq![
            (
                "linear_system_solved"@,
                seq![
                    ("solve_time_ms"@, DetailSpec::Float(solve_time_ms)),
                    ("displacement_norm"@, DetailSpec::Float(displacement_norm)),
                ],
            ),
            ("compute_element_forces"@, seq![]),
        ],
        (PipelineStage::Forces, PipelineEvent::ForcesRecovered { num_elements }) => seq![
            (
                "element_forces_computed"@,
                seq![("num_elements"@, DetailSpec::Integer(num_elements as i64))],
            ),
            ("compute_support_reactions"@, seq![]),
        ],
        (PipelineStage::Reactions, PipelineEvent::ReactionsComputed { num_reactions }) => seq![
            (
                "support_reactions_computed"@,
                seq![("num_reactions"@, DetailSpec::Integer(num_reactions as i64))],
            ),
        ],
        (PipelineStage::Equilibrium, PipelineEvent::EquilibriumChecked { imbalance, satisfied }) => seq![
            (
                "verify_equilibrium"@,
                seq![
                    ("force_imbalance"@, DetailSpec::Float(imbalance)),
                    ("equilibrium_satisfied"@, DetailSpec::Boolean(satisfied)),
                ],
            ),
            ("analysis_complete"@, seq![]),
        ],
        _ => seq![],
    }
}

/// The stage after a step, or `None` when the analysis stops: after a
/// failed solve, after the last step, and on an event that does not belong
/// to the stage.
pub open spec fn next_stage<F>(stage: PipelineStage, event: PipelineEvent<F>) -> Option<PipelineStage> {
    match (stage, event) {
        (PipelineStage::Start, PipelineEvent::Proceed) => Some(PipelineStage::Stiffness),
        (PipelineStage::Stiffness, PipelineEvent::Assembled { .. }) => Some(PipelineStage::Loads),
        (PipelineStage::Loads, PipelineEvent::LoadsAssembled { .. }) => Some(PipelineStage::Boundary),
        (PipelineStage::Boundary, PipelineEvent::BoundaryApplied { .. }) => Some(PipelineStage::Solve),
        (PipelineStage::Solve, PipelineEvent::Solved { .. }) => Some(PipelineStage::Forces),
        (PipelineStage::Forces, PipelineEvent::ForcesRecovered { .. }) => Some(PipelineStage::Reactions),
        (PipelineStage::Reactions, PipelineEvent::ReactionsComputed { .. }) => Some(PipelineStage::Equilibrium),
        (PipelineStage::Equilibrium, PipelineEvent::EquilibriumChecked { .. }) => Some(PipelineStage::Done),
        _ => None,
    }
}

fn count_detail<F>(key: &str, n: usize) -> (d: (String, AuditValue<F>))
    ensures
        d.0@ == key@,
        d.1 == AuditValue::<F>::Integer(n as i64),
{
    (key.to_string(), AuditValue::Integer(n as i64))
}

fn append_entry<F>(trail: &mut AuditTrail<F>, action: &str, details: Vec<(String, AuditValue<F>)>, Ghost(s): Ghost<EntrySpec<F>>)
    requires
        s.0 == action@,
        details@.len() == s.1.len(),
        forall|j: int|
            0 <= j < s.1.len() ==> (#[trigger] details@[j]).0@ == s.1[j].0 && value_is(details@[j].1, s.1[j].1),
    ensures
        final(trail).entries@.len() == old(trail).entries@.len() + 1,
        final(trail).entries@.drop_last() == old(trail).entries@,
        entry_is(final(trail).entries@.last(), s),
{
    trail.append_with_details(action, details);
}

/// Records the step of an analysis at `stage` whose numeric work reported
/// `event` (see [`step_entries`]), and returns the next stage (see
/// [`next_stage`]).
pub fn record_step<F: Copy>(
    trail: &mut AuditTrail<F>,
    model: &StructuralModel<F>,
    solver_name: &str,
    stage: PipelineStage,
    event: PipelineEvent<F>,
) -> (next: Option<PipelineStage>)
    ensures
        final(trail).entries@.len() == old(trail).entries@.len() + step_entries(
            *model,
            solver_name@,
            stage,
            event,
        ).len(),
        final(trail).entries@.take(old(trail).entries@.len() as int) == old(trail).entries@,
        entries_are(
            final(trail).entries@.skip(old(trail).entries@.len() as int),
            step_entries(*model, solver_name@, stage, event),
        ),
        next == next_stage(stage, event),
{
    let ghost before = trail.entries@;
    let ghost specs = step_entries(*model, solver_name@, stage, event);
    match (stage, event) {
        (PipelineStage::Start, PipelineEvent::Proceed) => {
            append_entry(trail, "start_analysis", Vec::new(), Ghost(specs[0]));
            let details = vec![
                count_detail("num_elements", model.elements.len()),
                count_detail("num_nodes", model.nodes.len()),
            ];
            append_entry(trail, "assemble_global_stiffness", details, Ghost(specs[1]));
        },
        (PipelineStage::Stiffness, PipelineEvent::Assembled { matrix_size, nnz }) => {
            let details = vec![count_detail("matrix_size", matrix_size), count_detail("nnz", nnz)];
            append_entry(trail, "stiffness_matrix_assembled", details, Ghost(specs[0]));
            append_entry(trail, "assemble_load_vector", Vec::new(), Ghost(specs[1]));
        },
        (PipelineStage::Loads, PipelineEvent::LoadsAssembled { num_dofs, load_norm }) => {
            let details = vec![
                count_detail("num_dofs", num_dofs),
                ("load_norm".to_string(), AuditValue::Float(load_norm)),
            ];
            append_entry(trail, "load_vector_assembled", details, Ghost(specs[0]));
            let details = vec![
                count_detail("num_supports", model.supports.len()),
                ("strategy".to_string(), AuditValue::String("Elimination".to_string())),
            ];
            append_entry(trail, "apply_boundary_conditions", details, Ghost(specs[1]));
        },
        (PipelineStage::Boundary, PipelineEvent::BoundaryApplied { num_dofs }) => {
            let details = vec![
                ("solver".to_string(), AuditValue::String(solver_name.to_string())),
                count_detail("dofs", num_dofs),
            ];
            append_entry(trail, "solve_linear_system", details, Ghost(specs[0]));
        },
        (PipelineStage::Solve, PipelineEvent::Solved { solve_time_ms, displacement_norm }) => {
            let details = vec![
                ("solve_time_ms".to_string(), AuditValue::Float(solve_time_ms)),
                ("displacement_norm".to_string(), AuditValue::Float(displacement_norm)),
            ];
            append_entry(trail, "linear_system_solved", details, Ghost(specs[0]));
            append_entry(trail, "compute_element_forces", Vec::new(), Ghost(specs[1]));
        },
        (PipelineStage::Forces, PipelineEvent::ForcesRecovered { num_elements }) => {
            let details = vec![count_detail("num_elements", num_elements)];
            append_entry(trail, "element_forces_computed", details, Ghost(specs[0]));
            append_entry(trail, "compute_support_reactions", Vec::new(), Ghost(specs[1]));
        },
        (PipelineStage::Reactions, PipelineEvent::ReactionsComputed { num_reactions }) => {
            let details = vec![count_detail("num_reactions", num_reactions)];
            append_entry(trail, "support_reactions_computed", details, Ghost(specs[0]));
        },
        (PipelineStage::Equilibrium, PipelineEvent::EquilibriumChecked { imbalance, satisfied }) => {
            let details = vec![
                ("force_imbalance".to_string(), AuditValue::Float(imbalance)),
                ("equilibrium_satisfied".to_string(), AuditValue::Boolean(satisfied)),
            ];
            append_entry(trail, "verify_equilibrium", details, Ghost(specs[0]));
            append_entry(trail, "analysis_complete", Vec::new(), Ghost(specs[1]));
        },
        _ => {},
    }
    proof {
        let added = trail.entries@.skip(before.len() as int);
        assert(trail.entries@.take(before.len() as int) =~= before);
        assert forall|k: int| 0 <= k < specs.len() implies entry_is(#[trigger] added[k], specs[k]) by {
            assert(added[k] == trail.entries@[before.len() + k]);
        }
    }
    match (stage, event) {
        (PipelineStage::Start, PipelineEvent::Proceed) => Some(PipelineStage::Stiffness),
        (PipelineStage::Stiffness, PipelineEvent::Assembled { .. }) => Some(PipelineStage::Loads),
        (PipelineStage::Loads, PipelineEvent::LoadsAssembled { .. }) => Some(PipelineStage::Boundary),
        (PipelineStage::Boundary, PipelineEvent::BoundaryApplied { .. }) => Some(PipelineStage::Solve),
        (PipelineStage::Solve, PipelineEvent::Solved { .. }) => Some(PipelineStage::Forces),
        (PipelineStage::Forces, PipelineEvent::ForcesRecovered { .. }) => Some(PipelineStage::Reactions),
        (PipelineStage::Reactions, PipelineEvent::ReactionsComputed { .. }) => Some(PipelineStage::Equilibrium),
        (PipelineStage::Equilibrium, PipelineEvent::EquilibriumChecked { .. }) => Some(PipelineStage::Done),
        _ => None,
    }
}

/// The entries recorded and the stage reached by an analysis that starts at
/// `stage` and whose steps report `events` in turn.  It stops at the first
/// step after which there is no next stage; the final stage is then `None`.
pub open spec fn run_entries<F>(
    model: StructuralModel<F>,
    solver_name: Seq<char>,
    stage: PipelineStage,
    events: Seq<PipelineEvent<F>>,
) -> (Seq<EntrySpec<F>>, Option<PipelineStage>)
    decreases events.len(),
{
    if events.len() == 0 {
        (seq![], Some(stage))
    } else {
        let here = step_entries(model, solver_name, stage, events[0]);
        match next_stage(stage, events[0]) {
            Some(n) => {
                let rest = run_entries(model, solver_name, n, events.drop_first());
                (here + rest.0, rest.1)
            },
            None => (here, None),
        }
    }
}

/// The actions of `entries`, in order.
pub open spec fn actions_of<F>(entries: Seq<EntrySpec<F>>) -> Seq<Seq<char>> {
    entries.map_values(|e: EntrySpec<F>| e.0)
}

/// The actions a complete analysis records, in order.
pub open spec fn complete_run_actions() -> Seq<Seq<char>> {
    seq![
        "start_analysis"@,
        "assemble_global_stiffness"@,
        "stiffness_matrix_assembled"@,
        "assemble_load_vector"@,
        "load_vector_assembled"@,
        "apply_boundary_conditions"@,
        "solve_linear_system"@,
        "linear_system_solved"@,
        "compute_element_forces"@,
        "element_forces_computed"@,
        "compute_support_reactions"@,
        "support_reactions_computed"@,
        "verify_equilibrium"@,
        "analysis_complete"@,
    ]
}

/// The events of an analysis whose every step succeeds.
pub open spec fn successful_events<F>(
    matrix_size: usize,
    nnz: usize,
    num_dofs: usize,
    load_norm: F,
    solve_time_ms: F,
    displacement_norm: F,
    num_elements: usize,
    num_reactions: usize,
    imbalance: F,
    satisfied: bool,
) -> Seq<PipelineEvent<F>> {
    seq![
        PipelineEvent::Proceed,
        PipelineEvent::Assembled { matrix_size, nnz },
        PipelineEvent::LoadsAssembled { num_dofs, load_norm },
        PipelineEvent::BoundaryApplied { num_dofs },
        PipelineEvent::Solved { solve_time_ms, displacement_norm },
        PipelineEvent::ForcesRecovered { num_elements },
        PipelineEvent::ReactionsComputed { num_reactions },
        PipelineEvent::EquilibriumChecked { imbalance, satisfied },
    ]
}

/// An analysis whose steps all succeed records the fourteen actions of a
/// complete run, in order, and ends at `Done`.
pub proof fn lemma_successful_run<F>(
    model: StructuralModel<F>,
    solver_name: Seq<char>,
    matrix_size: usize,
    nnz: usize,
    num_dofs: usize,
    load_norm: F,
    solve_time_ms: F,
    displacement_norm: F,
    num_elements: usize,
    num_reactions: usize,
    imbalance: F,
    satisfied: bool,
)
    ensures
        ({
            let run = run_entries(
                model,
                solver_name,
                PipelineStage::Start,
                successful_events(
                    matrix_size,
                    nnz,
                    num_dofs,
                    load_norm,
                    solve_time_ms,
                    displacement_norm,
                    num_elements,
                    num_reactions,
                    imbalance,
                    satisfied,
                ),
            );
            &&& actions_of(run.0) == complete_run_actions()
            &&& run.1 == Some(PipelineStage::Done)
        }),
{
    let events = successful_events(
        matrix_size,
        nnz,
        num_dofs,
        load_norm,
        solve_time_ms,
        displacement_norm,
        num_elements,
        num_reactions,
        imbalance,
        satisfied,
    );
    reveal_with_fuel(run_entries, 9);
    let run = run_entries(model, solver_name, PipelineStage::Start, events);
    assert(events.drop_first().drop_first().drop_first().drop_first().drop_first().drop_first().drop_first().drop_first().len() == 0);
    assert(actions_of(run.0) =~= complete_run_actions());
}

/// An analysis whose solve fails records the actions of a complete run up to
/// `solve_linear_system` and nothing after it, whatever the later events,
/// and stops.
pub proof fn lemma_failed_solve_stops<F>(
    model: StructuralModel<F>,
    solver_name: Seq<char>,
    matrix_size: usize,
    nnz: usize,
    num_dofs: usize,
    load_norm: F,
    later: Seq<PipelineEvent<F>>,
)
    ensures
        ({
            let run = run_entries(
                model,
                solver_name,
                PipelineStage::Start,
                seq![
                    PipelineEvent::Proceed,
                    PipelineEvent::Assembled { matrix_size, nnz },
                    PipelineEvent::LoadsAssembled { num_dofs, load_norm },
                    PipelineEvent::BoundaryApplied { num_dofs },
                    PipelineEvent::SolveFailed,
                ] + later,
            );
            &&& actions_of(run.0) == complete_run_actions().take(7)
            &&& actions_of(run.0).last() == "solve_linear_system"@
            &&& run.1 is None
        }),
{
    let events = seq![
        PipelineEvent::Proceed,
        PipelineEvent::Assembled { matrix_size, nnz },
        PipelineEvent::LoadsAssembled { num_dofs, load_norm },
        PipelineEvent::BoundaryApplied { num_dofs },
        PipelineEvent::SolveFailed,
    ] + later;
    reveal_with_fuel(run_entries, 6);
    assert(events[0] == PipelineEvent::<F>::Proceed);
    assert(events.drop_first()[0] == PipelineEvent::<F>::Assembled { matrix_size, nnz });
    assert(events.drop_first().drop_first()[0] == PipelineEvent::<F>::LoadsAssembled { num_dofs, load_norm });
    assert(events.drop_first().drop_first().drop_first()[0] == PipelineEvent::<F>::BoundaryApplied { num_dofs });
    assert(events.drop_first().drop_first().drop_first().drop_first()[0] == PipelineEvent::<F>::SolveFailed);
    let run = run_entries(model, solver_name, PipelineStage::Start, events);
    assert(actions_of(run.0) =~= complete_run_actions().take(7));
}

/// Entries recorded one after another record the steps one after another.
pub proof fn lemma_entries_concatenate<F>(
    a: Seq<AuditEntry<F>>,
    b: Seq<AuditEntry<F>>,
    s: Seq<EntrySpec<F>>,
    t: Seq<EntrySpec<F>>,
)
    requires
        entries_are(a, s),
        entries_are(b, t),
    ensures
        entries_are(a + b, s + t),
{
    assert forall|k: int| 0 <= k < (s + t).len() implies entry_is(#[trigger] (a + b)[k], (s + t)[k]) by {
        if k < s.len() {
            assert((a + b)[k] == a[k]);
        } else {
            assert((a + b)[k] == b[k - s.len()]);
        }
    }
}

} // verus!
