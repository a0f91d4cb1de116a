use fe_engine::audit::{AuditEntry, AuditTrail, AuditValue};

#[test]
fn trail_records_entries_in_order() {
    let mut trail: AuditTrail<f64> = AuditTrail::new();
    assert!(trail.is_empty());
    assert!(trail.last_entry().is_none());
    trail.append_action("start_analysis");
    trail.append_with_details(
        "assemble_global_stiffness",
        vec![("num_nodes".to_string(), AuditValue::Integer(11))],
    );
    trail.append(AuditEntry::new("solve_linear_system").with_detail("dofs", AuditValue::Integer(66)));
    trail.append_action("assemble_global_stiffness");
    assert_eq!(trail.len(), 4);
    assert!(!trail.is_empty());
    let last = trail.last_entry().unwrap();
    assert_eq!(last.action, "assemble_global_stiffness");
    assert!(last.details.is_empty());
    let found = trail.filter_by_action("assemble_global_stiffness");
    assert_eq!(found.len(), 2);
    assert_eq!(found[0].details, vec![("num_nodes".to_string(), AuditValue::Integer(11))]);
    assert!(trail.filter_by_action("missing").is_empty());
}

#[test]
fn entry_details_keep_their_order() {
    let e: AuditEntry<f64> = AuditEntry::new("test_action")
        .with_detail("num_dofs", AuditValue::Integer(100))
        .with_detail("max_displacement", AuditValue::Float(0.012))
        .with_detail("converged", AuditValue::Boolean(true))
        .with_details(vec![("solver".to_string(), AuditValue::String("CPU".to_string()))]);
    assert_eq!(e.action, "test_action");
    assert_eq!(e.details.len(), 4);
    assert_eq!(e.details[1], ("max_displacement".to_string(), AuditValue::Float(0.012)));
    assert_eq!(e.details[3].0, "solver");
    assert!(!e.timestamp.is_empty());
}

#[test]
fn audit_values_from_plain_values() {
    let a: AuditValue<f64> = AuditValue::from(7i64);
    let b: AuditValue<f64> = AuditValue::from(true);
    let c: AuditValue<f64> = AuditValue::from("abc".to_string());
    assert_eq!(a, AuditValue::Integer(7));
    assert_eq!(b, AuditValue::Boolean(true));
    assert_eq!(c, AuditValue::String("abc".to_string()));
}
