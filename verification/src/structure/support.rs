use vstd::prelude::*;

use super::node::NodeId;

verus! {

pub type SupportId = usize;

/// A support restraining a node.
#[derive(Debug, Clone)]
pub struct Support<F> {
    pub id: SupportId,
    pub node_id: NodeId,
    pub support_type: SupportType<F>,
}

#[derive(Debug, Clone, Copy)]
pub enum SupportType<F> {
    Fixed,
    Pinned,
    Roller { free_direction: Direction },
    ElasticSpring { stiffness: SpringStiffness<F> },
}

#[derive(Debug, Clone, Copy, PartialEq, Eq, Structural)]
pub enum Direction {
    X,
    Y,
    Z,
}

/// Spring stiffness per freedom; `None` leaves the freedom unrestrained.
#[derive(Debug, Clone, Copy)]
pub struct SpringStiffness<F> {
    pub tx: Option<F>,
    pub ty: Option<F>,
    pub tz: Option<F>,
    pub rx: Option<F>,
    pub ry: Option<F>,
    pub rz: Option<F>,
}

} // verus!
