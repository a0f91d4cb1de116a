use vstd::prelude::*;

use crate::export::report::{AuditEntry, Language, MaterialInfo, ReportSection};
use crate::text::{decimal, decimal_string};

verus! {

/// The text for `language` among its French, English and Spanish forms.
pub open spec fn localized(language: Language, fr: Seq<char>, en: Seq<char>, es: Seq<char>) -> Seq<char> {
    match language {
        Language::French => fr,
        Language::English => en,
        Language::Spanish => es,
    }
}

fn pick(language: Language, fr: &'static str, en: &'static str, es: &'static str) -> (s: &'static str)
    ensures
        s@ == localized(language, fr@, en@, es@),
{
    match language {
        Language::French => fr,
        Language::English => en,
        Language::Spanish => es,
    }
}

/// The heading of report section number `num`.
pub open spec fn heading_text(num: nat, title: Seq<char>) -> Seq<char> {
    "## "@ + decimal(num) + ". "@ + title + "\n\n"@
}

/// The heading of report section number `section_num` with the given title.
pub fn heading(section_num: usize, title: &str) -> (s: String)
    ensures
        s@ == heading_text(section_num as nat, title@),
{
    let mut s = "## ".to_string();
    s.append(decimal_string(section_num).as_str());
    s.append(". ");
    s.append(title);
    s.append("\n\n");
    s
}

/// The title of a report section in `language`.
pub open spec fn section_title_text<F>(section: ReportSection<F>, language: Language) -> Seq<char> {
    match section {
        ReportSection::Summary { .. } => localized(language, "Résumé"@, "Summary"@, "Resumen"@),
        ReportSection::InputData { .. } => localized(
            language,
            "Données d'Entrée"@,
            "Input Data"@,
            "Datos de Entrada"@,
        ),
        ReportSection::Results { .. } => localized(language, "Résultats"@, "Results"@, "Resultados"@),
        ReportSection::AuditTrail { .. } => localized(
            language,
            "Trace d'Audit"@,
            "Audit Trail"@,
            "Registro de Auditoría"@,
        ),
    }
}

/// The title of `section` in `language`.
pub fn section_title<F>(section: &ReportSection<F>, language: Language) -> (s: &'static str)
    ensures
        s@ == section_title_text(*section, language),
{
    match section {
        ReportSection::Summary { .. } => pick(language, "Résumé", "Summary", "Resumen"),
        ReportSection::InputData { .. } => pick(
            language,
            "Données d'Entrée",
            "Input Data",
            "Datos de Entrada",
        ),
        ReportSection::Results { .. } => pick(language, "Résultats", "Results", "Resultados"),
        ReportSection::AuditTrail { .. } => pick(
            language,
            "Trace d'Audit",
            "Audit Trail",
            "Registro de Auditoría",
        ),
    }
}

/// Number of audit entries a report lists.
pub const LISTED_AUDIT_ENTRIES: usize = 20;

/// The table row of an audit entry.
pub open spec fn audit_row(e: AuditEntry) -> Seq<char> {
    "| "@ + e.timestamp@ + " | "@ + e.action@ + " |\n"@
}

/// The table rows of `entries`, in order.
pub open spec fn audit_rows(entries: Seq<AuditEntry>) -> Seq<char>
    decreases entries.len(),
{
    if entries.len() == 0 {
        Seq::empty()
    } else {
        audit_rows(entries.drop_last()) + audit_row(entries.last())
    }
}

/// The table header of the audit section.
pub open spec fn audit_header(language: Language) -> Seq<char> {
    localized(
        language,
        "| Horodatage | Action |\n|------------|--------|\n"@,
        "| Timestamp | Action |\n|-----------|--------|\n"@,
        "| Marca de Tiempo | Acción |\n|-----------------|--------|\n"@,
    )
}

/// The audit section of a report: its heading, a table of the first twenty
/// entries, and, when there are more, how many were left out.
pub open spec fn audit_section_text(entries: Seq<AuditEntry>, num: nat, language: Language) -> Seq<char> {
    let listed = if entries.len() > 20 { 20 } else { entries.len() as int };
    heading_text(
        num,
        localized(language, "Trace d'Audit"@, "Audit Trail"@, "Registro de Auditoría"@),
    ) + audit_header(language) + audit_rows(entries.take(listed)) + if entries.len() > 20 {
        "\n*("@ + decimal((entries.len() - 20) as nat) + localized(
            language,
            " entrées supplémentaires omises"@,
            " additional entries omitted"@,
            " entradas adicionales omitidas"@,
        ) + ")*\n"@
    } else {
        Seq::empty()
    }
}

/// The audit section of a report, as Markdown (see [`audit_section_text`]).
pub fn render_audit_section(entries: &Vec<AuditEntry>, section_num: usize, language: Language) -> (s: String)
    ensures
        s@ == audit_section_text(entries@, section_num as nat, language),
{
    let mut s = heading(section_num, pick(language, "Trace d'Audit", "Audit Trail", "Registro de Auditoría"));
    s.append(
        pick(
            language,
            "| Horodatage | Action |\n|------------|--------|\n",
            "| Timestamp | Action |\n|-----------|--------|\n",
            "| Marca de Tiempo | Acción |\n|-----------------|--------|\n",
        ),
    );
    let listed: usize = if entries.len() > LISTED_AUDIT_ENTRIES {
        LISTED_AUDIT_ENTRIES
    } else {
        entries.len()
    };
    let ghost start = s@;
    let mut k: usize = 0;
    while k < listed
        invariant
            k <= listed <= entries@.len(),
            s@ == start + audit_rows(entries@.take(k as int)),
        decreases listed - k,
    {
        let e = &entries[k];
        s.append("| ");
        s.append(e.timestamp.as_str());
        s.append(" | ");
        s.append(e.action.as_str());
        s.append(" |\n");
        proof {
            assert(entries@.take(k + 1).drop_last() =~= entries@.take(k as int));
            assert(s@ =~= start + audit_rows(entries@.take(k + 1)));
        }
        k += 1;
    }
    if entries.len() > LISTED_AUDIT_ENTRIES {
        s.append("\n*(");
        s.append(decimal_string(entries.len() - LISTED_AUDIT_ENTRIES).as_str());
        s.append(
            pick(
                language,
                " entrées supplémentaires omises",
                " additional entries omitted",
                " entradas adicionales omitidas",
            ),
        );
        s.append(")*\n");
    }
    s
}

/// A line of the input data section giving a count.
pub open spec fn count_line(label: Seq<char>, n: nat) -> Seq<char> {
    label + decimal(n) + "\n"@
}

/// The heading and count lines of the input data section: numbers of
/// nodes, elements, supports and loads.
pub open spec fn input_counts_text(
    num_nodes: nat,
    num_elements: nat,
    num_supports: nat,
    num_loads: nat,
    num: nat,
    language: Language,
) -> Seq<char> {
    heading_text(
        num,
        localized(language, "Données d'Entrée"@, "Input Data"@, "Datos de Entrada"@),
    ) + count_line(
        localized(language, "- Nombre de nœuds: "@, "- Number of nodes: "@, "- Número de nodos: "@),
        num_nodes,
    ) + count_line(
        localized(
            language,
            "- Nombre d'éléments: "@,
            "- Number of elements: "@,
            "- Número de elementos: "@,
        ),
        num_elements,
    ) + count_line(
        localized(language, "- Nombre d'appuis: "@, "- Number of supports: "@, "- Número de apoyos: "@),
        num_supports,
    ) + count_line(
        localized(language, "- Nombre de charges: "@, "- Number of loads: "@, "- Número de cargas: "@),
        num_loads,
    )
}

fn append_count(s: &mut String, label: &str, n: usize)
    ensures
        final(s)@ == old(s)@ + count_line(label@, n as nat),
{
    s.append(label);
    s.append(decimal_string(n).as_str());
    s.append("\n");
}

/// The heading and count lines of the input data section, as Markdown (see
/// [`input_counts_text`]).
pub fn render_input_counts(
    num_nodes: usize,
    num_elements: usize,
    num_supports: usize,
    num_loads: usize,
    section_num: usize,
    language: Language,
) -> (s: String)
    ensures
        s@ == input_counts_text(
            num_nodes as nat,
            num_elements as nat,
            num_supports as nat,
            num_loads as nat,
            section_num as nat,
            language,
        ),
{
    let mut s = heading(section_num, pick(language, "Données d'Entrée", "Input Data", "Datos de Entrada"));
    append_count(&mut s, pick(language, "- Nombre de nœuds: ", "- Number of nodes: ", "- Número de nodos: "), num_nodes);
    append_count(
        &mut s,
        pick(language, "- Nombre d'éléments: ", "- Number of elements: ", "- Número de elementos: "),
        num_elements,
    );
    append_count(
        &mut s,
        pick(language, "- Nombre d'appuis: ", "- Number of supports: ", "- Número de apoyos: "),
        num_supports,
    );
    append_count(
        &mut s,
        pick(language, "- Nombre de charges: ", "- Number of loads: ", "- Número de cargas: "),
        num_loads,
    );
    s
}

/// The line of a material: its name in bold, and its design code when it has one.
pub open spec fn material_line(m: MaterialInfo) -> Seq<char> {
    match m.code_reference {
        Some(c) => "- **"@ + m.name@ + "** ("@ + c.standard@ + ", "@ + c.section@ + ")\n"@,
        None => "- **"@ + m.name@ + "**\n"@,
    }
}

/// The lines of `materials`, in order.
pub open spec fn material_lines(materials: Seq<MaterialInfo>) -> Seq<char>
    decreases materials.len(),
{
    if materials.len() == 0 {
        Seq::empty()
    } else {
        material_lines(materials.drop_last()) + material_line(materials.last())
    }
}

/// The material list of the input data section: nothing when there are no
/// materials, else a subheading and one line per material.
pub open spec fn materials_text(materials: Seq<MaterialInfo>, language: Language) -> Seq<char> {
    if materials.len() == 0 {
        Seq::empty()
    } else {
        "\n### "@ + localized(language, "Matériaux"@, "Materials"@, "Materiales"@) + "\n\n"@
            + material_lines(materials)
    }
}

/// The material list of the input data section, as Markdown (see
/// [`materials_text`]).
pub fn render_materials(materials: &Vec<MaterialInfo>, language: Language) -> (s: String)
    ensures
        s@ == materials_text(materials@, language),
{
    let mut s = String::new();
    if materials.len() == 0 {
        return s;
    }
    s.append("\n### ");
    s.append(pick(language, "Matériaux", "Materials", "Materiales"));
    s.append("\n\n");
    let ghost start = s@;
    let mut k: usize = 0;
    while k < materials.len()
        invariant
            k <= materials@.len(),
            s@ == start + material_lines(materials@.take(k as int)),
        decreases materials@.len() - k,
    {
        let m = &materials[k];
        s.append("- **");
        s.append(m.name.as_str());
        match &m.code_reference {
            Some(c) => {
                s.append("** (");
                s.append(c.standard.as_str());
                s.append(", ");
                s.append(c.section.as_str());
                s.append(")\n");
            },
            None => {
                s.append("**\n");
            },
        }
        proof {
            assert(materials@.take(k + 1).drop_last() =~= materials@.take(k as int));
            assert(s@ =~= start + material_lines(materials@.take(k + 1)));
        }
        k += 1;
    }
    proof {
        assert(materials@.take(materials@.len() as int) =~= materials@);
    }
    s
}

/// Number of displacement rows a report lists.
pub const LISTED_DISPLACEMENTS: usize = 10;

/// How many of `count` displacements a report lists: at most ten.
pub fn listed_displacements(count: usize) -> (n: usize)
    ensures
        n == if count > 10 { 10 } else { count },
{
    if count > LISTED_DISPLACEMENTS {
        LISTED_DISPLACEMENTS
    } else {
        count
    }
}

/// The subheading numbered `num`.`part` with the given label.
pub open spec fn subheading_text(num: nat, part: Seq<char>, label: Seq<char>) -> Seq<char> {
    "### "@ + decimal(num) + part + label + "\n\n"@
}

/// The table header of the displacements.
pub open spec fn displacement_header(language: Language) -> Seq<char> {
    localized(
        language,
        "| Nœud | TX (mm) | TY (mm) | TZ (mm) | RX (rad) | RY (rad) | RZ (rad) |\n|------|---------|---------|---------|----------|----------|----------|\n"@,
        "| Node | TX (mm) | TY (mm) | TZ (mm) | RX (rad) | RY (rad) | RZ (rad) |\n|------|---------|---------|---------|----------|----------|----------|\n"@,
        "| Nodo | TX (mm) | TY (mm) | TZ (mm) | RX (rad) | RY (rad) | RZ (rad) |\n|------|---------|---------|---------|----------|----------|----------|\n"@,
    )
}

/// The start of the results section, before its displacement rows: the
/// section heading, the displacements subheading and the table header.
pub open spec fn displacements_head_text(num: nat, language: Language) -> Seq<char> {
    heading_text(num, localized(language, "Résultats"@, "Results"@, "Resultados"@))
        + subheading_text(
        num,
        ".1 "@,
        localized(language, "Déplacements"@, "Displacements"@, "Desplazamientos"@),
    ) + displacement_header(language)
}

fn append_subheading(s: &mut String, num: usize, part: &str, label: &str)
    ensures
        final(s)@ == old(s)@ + subheading_text(num as nat, part@, label@),
{
    s.append("### ");
    s.append(decimal_string(num).as_str());
    s.append(part);
    s.append(label);
    s.append("\n\n");
}

/// The start of the results section, as Markdown (see
/// [`displacements_head_text`]).
pub fn render_displacements_head(section_num: usize, language: Language) -> (s: String)
    ensures
        s@ == displacements_head_text(section_num as nat, language),
{
    let mut s = heading(section_num, pick(language, "Résultats", "Results", "Resultados"));
    append_subheading(
        &mut s,
        section_num,
        ".1 ",
        pick(language, "Déplacements", "Displacements", "Desplazamientos"),
    );
    s.append(
        pick(
            language,
            "| Nœud | TX (mm) | TY (mm) | TZ (mm) | RX (rad) | RY (rad) | RZ (rad) |\n|------|---------|---------|---------|----------|----------|----------|\n",
            "| Node | TX (mm) | TY (mm) | TZ (mm) | RX (rad) | RY (rad) | RZ (rad) |\n|------|---------|---------|---------|----------|----------|----------|\n",
            "| Nodo | TX (mm) | TY (mm) | TZ (mm) | RX (rad) | RY (rad) | RZ (rad) |\n|------|---------|---------|---------|----------|----------|----------|\n",
        ),
    );
    s
}

/// The note on displacements left out of the table: nothing for ten or
/// fewer, else how many were left out.
pub open spec fn omitted_nodes_text(count: nat, language: Language) -> Seq<char> {
    if count > 10 {
        "\n*("@ + decimal((count - 10) as nat) + localized(
            language,
            " nœuds supplémentaires omis"@,
            " additional nodes omitted"@,
            " nodos adicionales omitidos"@,
        ) + ")*\n"@
    } else {
        Seq::empty()
    }
}

/// The note on displacements left out of the table, as Markdown (see
/// [`omitted_nodes_text`]).
pub fn render_omitted_nodes(count: usize, language: Language) -> (s: String)
    ensures
        s@ == omitted_nodes_text(count as nat, language),
{
    let mut s = String::new();
    if count > LISTED_DISPLACEMENTS {
        s.append("\n*(");
        s.append(decimal_string(count - LISTED_DISPLACEMENTS).as_str());
        s.append(
            pick(
                language,
                " nœuds supplémentaires omis",
                " additional nodes omitted",
                " nodos adicionales omitidos",
            ),
        );
        s.append(")*\n");
    }
    s
}

/// The table header of the support reactions.
pub open spec fn reaction_header(language: Language) -> Seq<char> {
    localized(
        language,
        "| Appui | Nœud | FX (kN) | FY (kN) | FZ (kN) | MX (kNm) | MY (kNm) | MZ (kNm) |\n|-------|------|---------|---------|---------|----------|----------|----------|\n"@,
        "| Support | Node | FX (kN) | FY (kN) | FZ (kN) | MX (kNm) | MY (kNm) | MZ (kNm) |\n|---------|------|---------|---------|---------|----------|----------|----------|\n"@,
        "| Apoyo | Nodo | FX (kN) | FY (kN) | FZ (kN) | MX (kNm) | MY (kNm) | MZ (kNm) |\n|-------|------|---------|---------|---------|----------|----------|----------|\n"@,
    )
}

/// The support reactions part of the results section, before its rows: a
/// blank line, the subheading and the table header.
pub open spec fn reactions_head_text(num: nat, language: Language) -> Seq<char> {
    "\n"@ + subheading_text(
        num,
        ".2 "@,
        localized(language, "Réactions d'Appui"@, "Support Reactions"@, "Reacciones de Apoyo"@),
    ) + reaction_header(language)
}

/// The support reactions part of the results section, before its rows, as
/// Markdown (see [`reactions_head_text`]).
pub fn render_reactions_head(section_num: usize, language: Language) -> (s: String)
    ensures
        s@ == reactions_head_text(section_num as nat, language),
{
    let mut s = "\n".to_string();
    append_subheading(
        &mut s,
        section_num,
        ".2 ",
        pick(language, "Réactions d'Appui", "Support Reactions", "Reacciones de Apoyo"),
    );
    s.append(
        pick(
            language,
            "| Appui | Nœud | FX (kN) | FY (kN) | FZ (kN) | MX (kNm) | MY (kNm) | MZ (kNm) |\n|-------|------|---------|---------|---------|----------|----------|----------|\n",
            "| Support | Node | FX (kN) | FY (kN) | FZ (kN) | MX (kNm) | MY (kNm) | MZ (kNm) |\n|---------|------|---------|---------|---------|----------|----------|----------|\n",
            "| Apoyo | Nodo | FX (kN) | FY (kN) | FZ (kN) | MX (kNm) | MY (kNm) | MZ (kNm) |\n|-------|------|---------|---------|---------|----------|----------|----------|\n",
        ),
    );
    s
}

/// The deflection check of a summary, with its limit already written out.
pub struct CheckFigures {
    pub limit_ratio: String,
    pub standard: String,
    pub section: String,
    pub limit: String,
    pub passes: bool,
}

/// The figures of a summary section, already written out, with the nodes
/// and elements where the extremes occur.
pub struct SummaryFigures {
    pub max_displacement: String,
    pub max_displacement_location: usize,
    pub deflection_check: Option<CheckFigures>,
    pub max_moment: Option<String>,
    pub max_moment_location: Option<usize>,
    pub max_shear: Option<String>,
    pub max_shear_location: Option<usize>,
    pub total_reaction: String,
}

/// The line of the deflection check, when there is one.
pub open spec fn check_line_text(c: Option<CheckFigures>, language: Language) -> Seq<char> {
    match c {
        Some(c) => "  - "@ + localized(language, "Limite admissible"@, "Allowable limit"@, "Límite admisible"@)
            + " ("@ + c.limit_ratio@ + ", "@ + c.standard@ + " "@ + c.section@ + "): "@ + c.limit@
            + " mm "@ + (if c.passes {
            "✓"@
        } else {
            "✗"@
        }) + "\n"@,
        None => Seq::empty(),
    }
}

/// The line of an extreme value, when there is one: its label, the value in
/// bold with its unit, and the element where it occurs when that is known.
pub open spec fn peak_line_text(
    label: Seq<char>,
    value: Option<String>,
    location: Option<usize>,
    unit: Seq<char>,
    language: Language,
) -> Seq<char> {
    match value {
        Some(v) => "- "@ + label + ": **"@ + v@ + unit + match location {
            Some(e) => " ("@ + localized(language, "élément"@, "element"@, "elemento"@) + " "@ + decimal(
                e as nat,
            ) + ")"@,
            None => Seq::empty(),
        } + "\n"@,
        None => Seq::empty(),
    }
}

/// The summary section: its heading, the largest displacement and where it
/// occurs, the deflection check when given, the largest moment and shear when
/// present, and the total reaction.
pub open spec fn summary_text(f: SummaryFigures, num: nat, language: Language) -> Seq<char> {
    heading_text(num, localized(language, "Résumé"@, "Summary"@, "Resumen"@)) + "- "@ + localized(
        language,
        "Flèche maximale"@,
        "Maximum displacement"@,
        "Flecha máxima"@,
    ) + ": **"@ + f.max_displacement@ + " mm** ("@ + localized(language, "nœud"@, "node"@, "nodo"@)
        + " "@ + decimal(f.max_displacement_location as nat) + ")\n"@ + check_line_text(
        f.deflection_check,
        language,
    ) + peak_line_text(
        localized(language, "Moment maximal"@, "Maximum moment"@, "Momento máximo"@),
        f.max_moment,
        f.max_moment_location,
        " kNm**"@,
        language,
    ) + peak_line_text(
        localized(language, "Effort tranchant maximal"@, "Maximum shear"@, "Cortante máximo"@),
        f.max_shear,
        f.max_shear_location,
        " kN**"@,
        language,
    ) + "- "@ + localized(language, "Réaction totale"@, "Total reaction"@, "Reacción total"@) + ": **"@
        + f.total_reaction@ + " kN**\n"@
}

/// The deflection check line tells the outcome of the check: it ends with
/// ✓ and a line break when the check passes, with ✗ and a line break when it
/// fails; without a check there is no line.
pub proof fn lemma_check_mark_shows_outcome(c: CheckFigures, language: Language)
    ensures
        ({
            let t = check_line_text(Some(c), language);
            &&& t.len() >= 2
            &&& t[t.len() - 1] == '\n'
            &&& t[t.len() - 2] == if c.passes {
                '✓'
            } else {
                '✗'
            }
        }),
        check_line_text(None, language).len() == 0,
{
    reveal_strlit("✓");
    reveal_strlit("✗");
    reveal_strlit("\n");
    let t = check_line_text(Some(c), language);
    let mark = if c.passes { "✓"@ } else { "✗"@ };
    let head = "  - "@ + localized(language, "Limite admissible"@, "Allowable limit"@, "Límite admisible"@)
        + " ("@ + c.limit_ratio@ + ", "@ + c.standard@ + " "@ + c.section@ + "): "@ + c.limit@ + " mm "@;
    assert(t == head + mark + "\n"@);
    assert(mark.len() == 1);
    assert(t[t.len() - 1] == "\n"@[0]);
    assert(t[t.len() - 2] == mark[0]);
}

fn check_line(c: &Option<CheckFigures>, language: Language) -> (s: String)
    ensures
        s@ == check_line_text(*c, language),
{
    let mut s = String::new();
    match c {
        Some(c) => {
            s.append("  - ");
            s.append(pick(language, "Limite admissible", "Allowable limit", "Límite admisible"));
            s.append(" (");
            s.append(c.limit_ratio.as_str());
            s.append(", ");
            s.append(c.standard.as_str());
            s.append(" ");
            s.append(c.section.as_str());
            s.append("): ");
            s.append(c.limit.as_str());
            s.append(" mm ");
            if c.passes {
                s.append("✓");
            } else {
                s.append("✗");
            }
            s.append("\n");
        },
        None => {},
    }
    s
}

fn peak_line(
    label: &str,
    value: &Option<String>,
    location: Option<usize>,
    unit: &str,
    language: Language,
) -> (s: String)
    ensures
        s@ == peak_line_text(label@, *value, location, unit@, language),
{
    let mut s = String::new();
    match value {
        Some(v) => {
            s.append("- ");
            s.append(label);
            s.append(": **");
            s.append(v.as_str());
            s.append(unit);
            match location {
                Some(e) => {
                    s.append(" (");
                    s.append(pick(language, "élément", "element", "elemento"));
                    s.append(" ");
                    s.append(decimal_string(e).as_str());
                    s.append(")");
                },
                None => {},
            }
            s.append("\n");
        },
        None => {},
    }
    s
}

/// The summary section, as Markdown (see [`summary_text`]).
pub fn render_summary(f: &SummaryFigures, section_num: usize, language: Language) -> (s: String)
    ensures
        s@ == summary_text(*f, section_num as nat, language),
{
    let mut s = heading(section_num, pick(language, "Résumé", "Summary", "Resumen"));
    s.append("- ");
    s.append(pick(language, "Flèche maximale", "Maximum displacement", "Flecha máxima"));
    s.append(": **");
    s.append(f.max_displacement.as_str());
    s.append(" mm** (");
    s.append(pick(language, "nœud", "node", "nodo"));
    s.append(" ");
    s.append(decimal_string(f.max_displacement_location).as_str());
    s.append(")\n");
    s.append(check_line(&f.deflection_check, language).as_str());
    s.append(
        peak_line(
            pick(language, "Moment maximal", "Maximum moment", "Momento máximo"),
            &f.max_moment,
            f.max_moment_location,
            " kNm**",
            language,
        ).as_str(),
    );
    s.append(
        peak_line(
            pick(language, "Effort tranchant maximal", "Maximum shear", "Cortante máximo"),
            &f.max_shear,
            f.max_shear_location,
            " kN**",
            language,
        ).as_str(),
    );
    s.append("- ");
    s.append(pick(language, "Réaction totale", "Total reaction", "Reacción total"));
    s.append(": **");
    s.append(f.total_reaction.as_str());
    s.append(" kN**\n");
    s
}

} // verus!
