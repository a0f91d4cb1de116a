use fe_engine::digest::{lower_hex_string, md5_hex};
use fe_engine::structure::{DofMask, Node, Point3D};

#[test]
fn hexadecimal_text_of_bytes() {
    assert_eq!(lower_hex_string(&[0x00, 0x0f, 0xa5, 0xff]), "000fa5ff");
    assert_eq!(lower_hex_string(&[]), "");
}

#[test]
fn md5_digests_of_known_texts() {
    assert_eq!(md5_hex(""), "d41d8cd98f00b204e9800998ecf8427e");
    assert_eq!(md5_hex("abc"), "900150983cd24fb0d6963f7d28e17f72");
    assert_eq!(md5_hex("abc").len(), 32);
}

#[test]
fn node_with_the_full_mask_is_a_new_node() {
    let p = Point3D { x: 1.0, y: 2.0, z: 3.0 };
    assert_eq!(Node::with_dof_mask(4, p, DofMask::all()), Node::new(4, p));
    assert_ne!(Node::with_dof_mask(4, p, DofMask::empty()), Node::new(4, p));
    assert_eq!(Node::new(4, p).dof_mask.bits(), 0x3f);
}
