use fe_engine::structure::DofMask;
use fe_engine::text::{decimal_string, same_text};

#[test]
fn decimal_numerals() {
    assert_eq!(decimal_string(0), "0");
    assert_eq!(decimal_string(7), "7");
    assert_eq!(decimal_string(10), "10");
    assert_eq!(decimal_string(9075), "9075");
    assert_eq!(decimal_string(usize::MAX), usize::MAX.to_string());
    assert!(same_text("x", "x"));
    assert!(!same_text("x", "y"));
}

#[test]
fn dof_masks() {
    assert_eq!(DofMask::all().bits(), 0x3f);
    assert_eq!(DofMask::empty().bits(), 0);
    assert_eq!(DofMask::from_bits_truncate(0xff).bits(), 0x3f);
    assert!(DofMask::from_bits(0x40).is_none());
    let t = DofMask::from_bits(0x07).unwrap();
    assert!(DofMask::all().contains(t));
    assert!(!t.contains(DofMask::all()));
    assert_eq!(t.union(DofMask::from_bits_truncate(0x38)), DofMask::all());
}
