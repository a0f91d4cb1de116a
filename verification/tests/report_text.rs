use fe_engine::analysis::{NodalDisplacement, SupportReaction};
use fe_engine::export::markdown::{
    render_summary, CheckFigures, SummaryFigures,
    heading, listed_displacements, render_audit_section, render_displacements_head,
    render_input_counts, render_materials, render_omitted_nodes, render_reactions_head,
    section_title,
};
use fe_engine::export::report::{
    calculation_report, AuditEntry, DeflectionCheck, Language, MaterialInfo, ReportConfig,
    ReportSection,
};
use fe_engine::structure::{
    CodeReference, CoordinateSystem, Load, LoadCase, LoadType, Material, MaterialType,
    ModelMetadata, StructuralModel, UnitSystem, Vector3D,
};

fn v(x: f64) -> Vector3D<f64> {
    Vector3D { x, y: 0.0, z: 0.0 }
}

fn entry(t: &str, a: &str) -> AuditEntry {
    AuditEntry { timestamp: t.to_string(), action: a.to_string(), details: None }
}

fn model() -> StructuralModel<f64> {
    StructuralModel {
        nodes: vec![],
        elements: vec![],
        materials: vec![Material {
            id: 0,
            name: "Steel S355".to_string(),
            material_type: MaterialType::Custom,
            elastic_modulus: 210e9,
            poisson_ratio: 0.3,
            density: 7850.0,
            thermal_expansion: 12e-6,
            code_reference: None,
        }],
        supports: vec![],
        load_cases: vec![LoadCase {
            id: 0,
            name: "Dead".to_string(),
            load_type: LoadType::Dead,
            loads: vec![Load::NodalForce { node_id: 0, force: v(1.0), moment: v(0.0) }],
        }],
        metadata: ModelMetadata {
            name: "Bridge".to_string(),
            description: String::new(),
            created: String::new(),
            modified: String::new(),
            units: UnitSystem::SI,
            coordinate_system: CoordinateSystem::Global {
                x_direction: String::new(),
                y_direction: String::new(),
                z_direction: String::new(),
            },
        },
    }
}

fn check() -> DeflectionCheck<f64> {
    DeflectionCheck {
        actual_deflection: 0.01,
        limit_deflection: 0.04,
        span_length: 10.0,
        limit_ratio: "L/250".to_string(),
        passes: true,
        code_reference: CodeReference { standard: "EN 1992-1-1:2004".to_string(), section: "§ 7.4.1".to_string() },
    }
}

fn report_with(config: ReportConfig) -> fe_engine::export::report::CalculationReport<f64> {
    calculation_report(
        &config,
        &model(),
        0.01,
        3,
        Some(5.0),
        Some(1),
        None,
        None,
        12.0,
        Some(10.0),
        Some(check()),
        vec![NodalDisplacement::new(3, v(0.01), v(0.0))],
        vec![],
        vec![SupportReaction::new(0, 0, v(-1.0), v(0.0))],
        vec![entry("t0", "start_analysis")],
    )
}

#[test]
fn full_report_has_four_sections_in_order() {
    let report = report_with(ReportConfig::default());
    assert_eq!(report.title, "Calculation Report - Bridge");
    assert_eq!(report.sections.len(), 4);
    match &report.sections[0] {
        ReportSection::Summary { max_displacement_location, max_moment, deflection_check, total_reaction_force, .. } => {
            assert_eq!(*max_displacement_location, 3);
            assert_eq!(*max_moment, Some(5.0));
            assert_eq!(*total_reaction_force, 12.0);
            assert_eq!(deflection_check.as_ref().unwrap().limit_ratio, "L/250");
        }
        _ => panic!("summary expected first"),
    }
    match &report.sections[1] {
        ReportSection::InputData { num_nodes, num_loads, materials, span_length, .. } => {
            assert_eq!(*num_nodes, 0);
            assert_eq!(*num_loads, 1);
            assert_eq!(materials[0].name, "Steel S355");
            assert_eq!(*span_length, Some(10.0));
        }
        _ => panic!("input data expected second"),
    }
    assert!(matches!(report.sections[2], ReportSection::Results { .. }));
    match &report.sections[3] {
        ReportSection::AuditTrail { entries } => assert_eq!(entries[0].action, "start_analysis"),
        _ => panic!("audit trail expected last"),
    }
}

#[test]
fn report_without_audit_trail_or_code_references() {
    let config = ReportConfig {
        include_audit_trail: false,
        include_plots: false,
        language: Language::French,
        code_references: false,
    };
    let report = report_with(config);
    assert_eq!(report.sections.len(), 3);
    match &report.sections[0] {
        ReportSection::Summary { deflection_check, .. } => assert!(deflection_check.is_none()),
        _ => panic!("summary expected first"),
    }
}

#[test]
fn headings_and_titles() {
    assert_eq!(heading(2, "Summary"), "## 2. Summary\n\n");
    let s: ReportSection<f64> = ReportSection::AuditTrail { entries: vec![] };
    assert_eq!(section_title(&s, Language::English), "Audit Trail");
    assert_eq!(section_title(&s, Language::French), "Trace d'Audit");
    assert_eq!(section_title(&s, Language::Spanish), "Registro de Auditoría");
    let r: ReportSection<f64> = ReportSection::Results { displacements: vec![], forces: vec![], reactions: vec![] };
    assert_eq!(section_title(&r, Language::French), "Résultats");
}

#[test]
fn audit_section_lists_twenty_entries() {
    let few = vec![entry("t1", "a"), entry("t2", "b")];
    assert_eq!(
        render_audit_section(&few, 4, Language::English),
        "## 4. Audit Trail\n\n| Timestamp | Action |\n|-----------|--------|\n| t1 | a |\n| t2 | b |\n"
    );
    let many: Vec<AuditEntry> = (0..23).map(|i| entry(&format!("t{}", i), "x")).collect();
    let text = render_audit_section(&many, 1, Language::Spanish);
    assert!(text.starts_with("## 1. Registro de Auditoría\n\n| Marca de Tiempo | Acción |\n"));
    assert_eq!(text.matches("| x |").count(), 20);
    assert!(text.contains("| t19 | x |"));
    assert!(!text.contains("| t20 | x |"));
    assert!(text.ends_with("\n*(3 entradas adicionales omitidas)*\n"));
    let empty: Vec<AuditEntry> = vec![];
    assert_eq!(
        render_audit_section(&empty, 3, Language::French),
        "## 3. Trace d'Audit\n\n| Horodatage | Action |\n|------------|--------|\n"
    );
}

#[test]
fn input_counts_and_materials() {
    assert_eq!(
        render_input_counts(2, 1, 2, 13, 2, Language::English),
        "## 2. Input Data\n\n- Number of nodes: 2\n- Number of elements: 1\n- Number of supports: 2\n- Number of loads: 13\n"
    );
    assert!(render_input_counts(0, 0, 0, 0, 1, Language::French).contains("- Nombre de nœuds: 0\n"));
    let materials = vec![
        MaterialInfo {
            name: "C30/37".to_string(),
            code_reference: Some(CodeReference { standard: "EN 1992-1-1".to_string(), section: "3.1".to_string() }),
        },
        MaterialInfo { name: "Custom".to_string(), code_reference: None },
    ];
    assert_eq!(
        render_materials(&materials, Language::English),
        "\n### Materials\n\n- **C30/37** (EN 1992-1-1, 3.1)\n- **Custom**\n"
    );
    assert_eq!(render_materials(&vec![], Language::Spanish), "");
}

#[test]
fn results_section_parts() {
    assert_eq!(
        render_displacements_head(3, Language::English),
        "## 3. Results\n\n### 3.1 Displacements\n\n| Node | TX (mm) | TY (mm) | TZ (mm) | RX (rad) | RY (rad) | RZ (rad) |\n|------|---------|---------|---------|----------|----------|----------|\n"
    );
    assert!(render_displacements_head(1, Language::French).starts_with("## 1. Résultats\n\n### 1.1 Déplacements\n\n| Nœud |"));
    assert_eq!(listed_displacements(4), 4);
    assert_eq!(listed_displacements(25), 10);
    assert_eq!(render_omitted_nodes(10, Language::English), "");
    assert_eq!(render_omitted_nodes(13, Language::English), "\n*(3 additional nodes omitted)*\n");
    assert_eq!(render_omitted_nodes(11, Language::Spanish), "\n*(1 nodos adicionales omitidos)*\n");
    assert_eq!(
        render_reactions_head(2, Language::English),
        "\n### 2.2 Support Reactions\n\n| Support | Node | FX (kN) | FY (kN) | FZ (kN) | MX (kNm) | MY (kNm) | MZ (kNm) |\n|---------|------|---------|---------|---------|----------|----------|----------|\n"
    );
    assert!(render_reactions_head(2, Language::French).starts_with("\n### 2.2 Réactions d'Appui\n\n| Appui | Nœud |"));
}

#[test]
fn summary_lines_follow_the_figures() {
    let full = SummaryFigures {
        max_displacement: "12.500".to_string(),
        max_displacement_location: 4,
        deflection_check: Some(CheckFigures {
            limit_ratio: "L/250".to_string(),
            standard: "EN 1992-1-1:2004".to_string(),
            section: "§ 7.4.1".to_string(),
            limit: "40.000".to_string(),
            passes: true,
        }),
        max_moment: Some("3.2".to_string()),
        max_moment_location: Some(1),
        max_shear: Some("7.0".to_string()),
        max_shear_location: None,
        total_reaction: "10.0".to_string(),
    };
    assert_eq!(
        render_summary(&full, 1, Language::English),
        "## 1. Summary\n\n- Maximum displacement: **12.500 mm** (node 4)\n  - Allowable limit (L/250, EN 1992-1-1:2004 § 7.4.1): 40.000 mm ✓\n- Maximum moment: **3.2 kNm** (element 1)\n- Maximum shear: **7.0 kN**\n- Total reaction: **10.0 kN**\n"
    );
    let bare = SummaryFigures {
        max_displacement: "0.000".to_string(),
        max_displacement_location: 0,
        deflection_check: None,
        max_moment: None,
        max_moment_location: None,
        max_shear: None,
        max_shear_location: None,
        total_reaction: "0.0".to_string(),
    };
    assert_eq!(
        render_summary(&bare, 2, Language::French),
        "## 2. Résumé\n\n- Flèche maximale: **0.000 mm** (nœud 0)\n- Réaction totale: **0.0 kN**\n"
    );
}
