use vstd::prelude::*;

use crate::analysis::result::{ElementForces, NodalDisplacement, SupportReaction};
use crate::structure::load::LoadCase;
use crate::structure::material::{CodeReference, Material};
use crate::structure::model::StructuralModel;
use vstd::std_specs::convert::FromSpecImpl;

verus! {

#[verifier::external_type_specification]
#[verifier::external_body]
pub struct ExIoError(std::io::Error);

/// A failure while producing a report.
#[derive(Debug)]
pub enum ReportError {
    Io(std::io::Error),
    Serialization(String),
}

impl From<std::io::Error> for ReportError {
    fn from(e: std::io::Error) -> (r: Self) {
        ReportError::Io(e)
    }
}

impl FromSpecImpl<std::io::Error> for ReportError {
    open spec fn obeys_from_spec() -> bool {
        true
    }

    open spec fn from_spec(e: std::io::Error) -> Self {
        ReportError::Io(e)
    }
}

/// What a calculation report contains and in which language.
#[derive(Debug, Clone, PartialEq)]
pub struct ReportConfig {
    pub include_audit_trail: bool,
    pub include_plots: bool,
    pub language: Language,
    pub code_references: bool,
}

impl Default for ReportConfig {
    /// English, with the audit trail and code references, without plots.
    fn default() -> (c: Self)
        ensures
            c == (ReportConfig {
                include_audit_trail: true,
                include_plots: false,
                language: Language::English,
                code_references: true,
            }),
    {
        ReportConfig {
            include_audit_trail: true,
            include_plots: false,
            language: Language::English,
            code_references: true,
        }
    }
}

#[derive(Debug, Clone, Copy, PartialEq, Eq, Structural)]
pub enum Language {
    French,
    English,
    Spanish,
}

/// The language of a language code: "fr" is French, "es" Spanish, anything
/// else English.
pub open spec fn language_of_code(code: Seq<char>) -> Language {
    if code == "fr"@ {
        Language::French
    } else if code == "es"@ {
        Language::Spanish
    } else {
        Language::English
    }
}

impl Language {
    /// The language of a language code (see [`language_of_code`]).
    pub fn from_code(code: &str) -> (l: Language)
        ensures
            l == language_of_code(code@),
    {
        if crate::text::same_text(code, "fr") {
            Language::French
        } else if crate::text::same_text(code, "es") {
            Language::Spanish
        } else {
            Language::English
        }
    }
}

/// A calculation report: a title and numbered sections.
#[derive(Debug, Clone, PartialEq)]
pub struct CalculationReport<F> {
    pub title: String,
    pub sections: Vec<ReportSection<F>>,
}

impl<F> CalculationReport<F> {
    pub fn new(title: String) -> (r: Self)
        ensures
            r.title == title,
            r.sections@ == Seq::<ReportSection<F>>::empty(),
    {
        CalculationReport { title, sections: Vec::new() }
    }

    pub fn add_section(&mut self, section: ReportSection<F>)
        ensures
            final(self).title == old(self).title,
            final(self).sections@ == old(self).sections@.push(section),
    {
        self.sections.push(section);
    }
}

#[derive(Debug, Clone, PartialEq)]
pub enum ReportSection<F> {
    Summary {
        max_displacement: F,
        max_displacement_location: usize,
        max_moment: Option<F>,
        max_moment_location: Option<usize>,
        max_shear: Option<F>,
        max_shear_location: Option<usize>,
        total_reaction_force: F,
        deflection_check: Option<DeflectionCheck<F>>,
    },
    InputData {
        num_nodes: usize,
        num_elements: usize,
        num_supports: usize,
        num_loads: usize,
        materials: Vec<MaterialInfo>,
        span_length: Option<F>,
    },
    Results {
        displacements: Vec<NodalDisplacement<F>>,
        forces: Vec<ElementForces<F>>,
        reactions: Vec<SupportReaction<F>>,
    },
    AuditTrail { entries: Vec<AuditEntry> },
}

/// The name of a material and the design code it follows.
#[derive(Debug, Clone, PartialEq)]
pub struct MaterialInfo {
    pub name: String,
    pub code_reference: Option<CodeReference>,
}

/// A serviceability check of the largest deflection against a span ratio.
#[derive(Debug, Clone, PartialEq)]
pub struct DeflectionCheck<F> {
    pub actual_deflection: F,
    pub limit_deflection: F,
    pub span_length: F,
    pub limit_ratio: String,
    pub passes: bool,
    pub code_reference: CodeReference,
}

/// An audit entry as printed in a report.
#[derive(Debug, Clone, PartialEq)]
pub struct AuditEntry {
    pub timestamp: String,
    pub action: String,
    pub details: Option<String>,
}

/// Whether `c` is a copy of `r`: the same texts.
pub open spec fn same_reference(c: Option<CodeReference>, r: Option<CodeReference>) -> bool {
    match (c, r) {
        (Some(a), Some(b)) => a.standard@ == b.standard@ && a.section@ == b.section@,
        (None, None) => true,
        _ => false,
    }
}

fn copy_reference(r: &Option<CodeReference>) -> (c: Option<CodeReference>)
    ensures
        same_reference(c, *r),
{
    match r {
        Some(r) => Some(CodeReference { standard: r.standard.clone(), section: r.section.clone() }),
        None => None,
    }
}

/// Name and code reference of each material of the model, in order.
pub fn material_infos<F>(model: &StructuralModel<F>) -> (v: Vec<MaterialInfo>)
    ensures
        v@.len() == model.materials@.len(),
        forall|k: int|
            0 <= k < v@.len() ==> (#[trigger] v@[k]).name@ == model.materials@[k].name@
                && same_reference(v@[k].code_reference, model.materials@[k].code_reference),
{
    let mut v: Vec<MaterialInfo> = Vec::new();
    let mut i: usize = 0;
    while i < model.materials.len()
        invariant
            i <= model.materials@.len(),
            v@.len() == i,
            forall|k: int|
                0 <= k < i ==> (#[trigger] v@[k]).name@ == model.materials@[k].name@
                    && same_reference(v@[k].code_reference, model.materials@[k].code_reference),
        decreases model.materials@.len() - i,
    {
        let m = &model.materials[i];
        v.push(MaterialInfo { name: m.name.clone(), code_reference: copy_reference(&m.code_reference) });
        i += 1;
    }
    v
}

/// Number of loads over all load cases.
pub open spec fn total_loads<F>(load_cases: Seq<LoadCase<F>>) -> nat
    decreases load_cases.len(),
{
    if load_cases.len() == 0 {
        0
    } else {
        total_loads(load_cases.drop_last()) + load_cases.last().loads@.len()
    }
}

/// Number of loads over all load cases of the model.
pub fn load_count<F>(model: &StructuralModel<F>) -> (n: usize)
    requires
        total_loads(model.load_cases@) <= usize::MAX,
    ensures
        n == total_loads(model.load_cases@),
{
    let mut n: usize = 0;
    let mut i: usize = 0;
    while i < model.load_cases.len()
        invariant
            i <= model.load_cases@.len(),
            total_loads(model.load_cases@) <= usize::MAX,
            n == total_loads(model.load_cases@.take(i as int)),
        decreases model.load_cases@.len() - i,
    {
        proof {
            let t = model.load_cases@.take(i + 1);
            assert(t.drop_last() =~= model.load_cases@.take(i as int));
            lemma_total_loads_prefix(model.load_cases@, i + 1);
        }
        n = n + model.load_cases[i].loads.len();
        i += 1;
    }
    proof {
        assert(model.load_cases@.take(model.load_cases@.len() as int) =~= model.load_cases@);
    }
    n
}

/// The input data section of a report on `model`: the numbers of nodes,
/// elements, supports and loads, the materials and the span.
pub open spec fn is_input_section<F>(s: ReportSection<F>, model: StructuralModel<F>, span_length: Option<F>) -> bool {
    &&& s matches ReportSection::InputData { num_nodes, num_elements, num_supports, num_loads, materials, span_length: span }
    &&& num_nodes == model.nodes@.len()
    &&& num_elements == model.elements@.len()
    &&& num_supports == model.supports@.len()
    &&& num_loads == total_loads(model.load_cases@)
    &&& span == span_length
    &&& materials@.len() == model.materials@.len()
    &&& forall|k: int|
        0 <= k < materials@.len() ==> (#[trigger] materials@[k]).name@ == model.materials@[k].name@
            && same_reference(materials@[k].code_reference, model.materials@[k].code_reference)
}

/// The calculation report on `model` under `config`, from the figures the
/// analysis gave: the summary (whose deflection check, the one for the
/// estimated span, appears only when code references are asked for), the
/// input data, the results, and the audit entries when the audit trail is
/// asked for.
pub fn calculation_report<F>(
    config: &ReportConfig,
    model: &StructuralModel<F>,
    max_displacement: F,
    max_displacement_location: usize,
    max_moment: Option<F>,
    max_moment_location: Option<usize>,
    max_shear: Option<F>,
    max_shear_location: Option<usize>,
    total_reaction_force: F,
    span_length: Option<F>,
    deflection_check: Option<DeflectionCheck<F>>,
    displacements: Vec<NodalDisplacement<F>>,
    forces: Vec<ElementForces<F>>,
    reactions: Vec<SupportReaction<F>>,
    audit_entries: Vec<AuditEntry>,
) -> (r: CalculationReport<F>)
    requires
        total_loads(model.load_cases@) <= usize::MAX,
    ensures
        r.title@ == "Calculation Report - "@ + model.metadata.name@,
        r.sections@.len() == if config.include_audit_trail { 4int } else { 3int },
        r.sections@[0] == (ReportSection::Summary {
            max_displacement,
            max_displacement_location,
            max_moment,
            max_moment_location,
            max_shear,
            max_shear_location,
            total_reaction_force,
            deflection_check: if config.code_references { deflection_check } else { None },
        }),
        is_input_section(r.sections@[1], *model, span_length),
        r.sections@[2] == (ReportSection::Results { displacements, forces, reactions }),
        config.include_audit_trail ==> r.sections@[3] == (ReportSection::<F>::AuditTrail { entries: audit_entries }),
{
    let mut title = "Calculation Report - ".to_string();
    title.append(model.metadata.name.as_str());
    let mut report = CalculationReport::new(title);
    let check = if config.code_references { deflection_check } else { None };
    report.add_section(
        ReportSection::Summary {
            max_displacement,
            max_displacement_location,
            max_moment,
            max_moment_location,
            max_shear,
            max_shear_location,
            total_reaction_force,
            deflection_check: check,
        },
    );
    let materials = material_infos(model);
    let num_loads = load_count(model);
    report.add_section(
        ReportSection::InputData {
            num_nodes: model.nodes.len(),
            num_elements: model.elements.len(),
            num_supports: model.supports.len(),
            num_loads,
            materials,
            span_length,
        },
    );
    report.add_section(ReportSection::Results { displacements, forces, reactions });
    if config.include_audit_trail {
        report.add_section(ReportSection::AuditTrail { entries: audit_entries });
    }
    report
}

proof fn lemma_total_loads_prefix<F>(load_cases: Seq<LoadCase<F>>, k: int)
    requires
        0 <= k <= load_cases.len(),
    ensures
        total_loads(load_cases.take(k)) <= total_loads(load_cases),
    decreases load_cases.len(),
{
    if k < load_cases.len() {
        lemma_total_loads_prefix(load_cases.drop_last(), k);
        assert(load_cases.drop_last().take(k) =~= load_cases.take(k));
    } else {
        assert(load_cases.take(k) =~= load_cases);
    }
}

} // verus!
