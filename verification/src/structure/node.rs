use vstd::prelude::*;

use super::geometry::Point3D;

verus! {

pub type NodeId = usize;

/// Bit of the translation along x in a [`DofMask`].
pub const TX: u8 = 0x01;
/// Bit of the translation along y.
pub const TY: u8 = 0x02;
/// Bit of the translation along z.
pub const TZ: u8 = 0x04;
/// Bit of the rotation about x.
pub const RX: u8 = 0x08;
/// Bit of the rotation about y.
pub const RY: u8 = 0x10;
/// Bit of the rotation about z.
pub const RZ: u8 = 0x20;
/// All six bits.
pub const ALL_DOFS: u8 = 0x3f;

/// The set of active degrees of freedom of a node, one bit per freedom:
/// translations along x, y, z, then rotations about x, y, z.
#[derive(Debug, Clone, Copy, PartialEq, Eq, Structural)]
pub struct DofMask {
    bits: u8,
}

impl View for DofMask {
    type V = u8;

    closed spec fn view(&self) -> u8 {
        self.bits
    }
}

impl DofMask {
    /// The mask with all six degrees of freedom active.
    pub closed spec fn full() -> DofMask {
        DofMask { bits: ALL_DOFS }
    }

    /// All six degrees of freedom active.
    pub fn all() -> (m: DofMask)
        ensures
            m@ == ALL_DOFS,
            m == DofMask::full(),
    {
        DofMask { bits: ALL_DOFS }
    }

    /// No degree of freedom active.
    pub fn empty() -> (m: DofMask)
        ensures
            m@ == 0,
    {
        DofMask { bits: 0 }
    }

    /// The mask holding the known bits of `bits`; unknown bits are dropped.
    pub fn from_bits_truncate(bits: u8) -> (m: DofMask)
        ensures
            m@ == bits & ALL_DOFS,
    {
        DofMask { bits: bits & ALL_DOFS }
    }

    /// The mask of `bits`, or `None` when `bits` holds an unknown bit.
    pub fn from_bits(bits: u8) -> (m: Option<DofMask>)
        ensures
            m matches Some(mask) <==> bits & ALL_DOFS == bits,
            m matches Some(mask) ==> mask@ == bits,
    {
        if bits & ALL_DOFS == bits {
            Some(DofMask { bits })
        } else {
            None
        }
    }

    pub fn bits(&self) -> (b: u8)
        ensures
            b == self@,
    {
        self.bits
    }

    /// Whether every freedom of `other` is active in `self`.
    pub fn contains(&self, other: DofMask) -> (b: bool)
        ensures
            b == (self@ & other@ == other@),
    {
        self.bits & other.bits == other.bits
    }

    /// The freedoms active in either mask.
    pub fn union(&self, other: DofMask) -> (m: DofMask)
        ensures
            m@ == self@ | other@,
    {
        DofMask { bits: self.bits | other.bits }
    }
}

/// A mask is determined by its bits.
pub proof fn lemma_mask_bits_determine(a: DofMask, b: DofMask)
    ensures
        (a@ == b@) <==> (a == b),
{
}

/// The full mask is the mask of all six bits.
pub proof fn lemma_full_mask_bits()
    ensures
        DofMask::full()@ == ALL_DOFS,
{
}

/// A node given a mask with all six freedoms active is the node that
/// `Node::new` makes: `Node::with_dof_mask(id, c, DofMask::all())` equals
/// `Node::new(id, c)`.
pub proof fn lemma_full_mask_node<F>(id: NodeId, coordinates: Point3D<F>, mask: DofMask)
    requires
        mask@ == ALL_DOFS,
    ensures
        (Node { id, coordinates, dof_mask: mask }) == (Node { id, coordinates, dof_mask: DofMask::full() }),
{
}

/// A node of the model: an identifier, a position and its active freedoms.
#[derive(Debug, Clone, PartialEq)]
pub struct Node<F> {
    pub id: NodeId,
    pub coordinates: Point3D<F>,
    pub dof_mask: DofMask,
}

impl<F> Node<F> {
    /// A node with all six freedoms active.
    pub fn new(id: NodeId, coordinates: Point3D<F>) -> (n: Self)
        ensures
            n == (Node { id, coordinates, dof_mask: DofMask::full() }),
            n.dof_mask@ == ALL_DOFS,
    {
        Node { id, coordinates, dof_mask: DofMask::all() }
    }

    /// A node with the given active freedoms.
    pub fn with_dof_mask(id: NodeId, coordinates: Point3D<F>, dof_mask: DofMask) -> (n: Self)
        ensures
            n == (Node { id, coordinates, dof_mask }),
    {
        Node { id, coordinates, dof_mask }
    }
}

} // verus!
