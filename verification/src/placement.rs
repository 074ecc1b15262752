//! The order in which the parts of a node's placement are composed.
//!
//! A node is placed relative to its parent by a position, three angles and a
//! pivot. Its local matrix is a product of six matrices, one for each factor
//! listed here, the first factor leftmost. Applied to a point the product
//! works from the right: the pivot is moved to the origin, the node turns
//! about x, then about y, then about z, the pivot is moved back, and the node
//! is moved to its position. So a node turns about its own pivot before it is
//! moved into its parent's frame.

use vstd::prelude::*;

verus! {

/// One of the three axes.
#[derive(Clone, Copy, Debug, PartialEq, Eq, Structural)]
pub enum Axis {
    X,
    Y,
    Z,
}

/// One factor of a node's local matrix.
#[derive(Clone, Copy, Debug, PartialEq, Eq, Structural)]
pub enum Factor {
    /// The translation by the node's position.
    ToPosition,
    /// The translation by the pivot.
    FromOrigin,
    /// The rotation about an axis by the node's angle for that axis.
    Rotation(Axis),
    /// The translation by the negated pivot.
    ToOrigin,
}

/// The factors of a node's local matrix, leftmost first. The factor that
/// acts on a point first stands last, so the rotation about x stands to the
/// right of the rotation about y, and that to the right of the rotation
/// about z.
pub open spec fn spec_local_factors() -> Seq<Factor> {
    seq![
        Factor::ToPosition,
        Factor::FromOrigin,
        Factor::Rotation(Axis::Z),
        Factor::Rotation(Axis::Y),
        Factor::Rotation(Axis::X),
        Factor::ToOrigin,
    ]
}

/// The factors of a node's local matrix, leftmost first.
pub fn local_factors() -> (factors: Vec<Factor>)
    ensures
        factors@ == spec_local_factors(),
        factors@.len() == 6,
        factors@[0] == Factor::ToPosition,
        factors@[1] == Factor::FromOrigin,
        factors@[2] == Factor::Rotation(Axis::Z),
        factors@[3] == Factor::Rotation(Axis::Y),
        factors@[4] == Factor::Rotation(Axis::X),
        factors@[5] == Factor::ToOrigin,
{
    let mut factors: Vec<Factor> = Vec::new();
    factors.push(Factor::ToPosition);
    factors.push(Factor::FromOrigin);
    factors.push(Factor::Rotation(Axis::Z));
    factors.push(Factor::Rotation(Axis::Y));
    factors.push(Factor::Rotation(Axis::X));
    factors.push(Factor::ToOrigin);
    factors
}

} // verus!
