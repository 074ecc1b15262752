//! How the scene is put together: a helicopter from its parts, and the
//! scene from its helicopters and the terrain.
//!
//! The animation finds the parts of a helicopter by their position among
//! the children of its body, so the positions are fixed here.

use vstd::prelude::*;
use crate::node::SceneNode;

verus! {

/// The position of the door among the children of a helicopter's body.
pub const DOOR: usize = 0;

/// The position of the main rotor among the children of a helicopter's body.
pub const MAIN_ROTOR: usize = 1;

/// The position of the tail rotor among the children of a helicopter's body.
pub const TAIL_ROTOR: usize = 2;

/// Whether `node` has the shape of a helicopter: a body with three children.
pub open spec fn spec_is_helicopter<T>(node: SceneNode<T>) -> bool {
    node.children@.len() == 3
}

/// A helicopter: `body` with the door, the main rotor and the tail rotor as
/// its children, in this order. The parts move with the body.
pub fn helicopter<T>(
    body: SceneNode<T>,
    door: SceneNode<T>,
    main_rotor: SceneNode<T>,
    tail_rotor: SceneNode<T>,
) -> (assembled: SceneNode<T>)
    requires
        body.children@.len() == 0,
    ensures
        assembled.transform == body.transform,
        assembled.resource == body.resource,
        assembled.children@ == seq![door, main_rotor, tail_rotor],
        spec_is_helicopter(assembled),
        assembled.children@[DOOR as int] == door,
        assembled.children@[MAIN_ROTOR as int] == main_rotor,
        assembled.children@[TAIL_ROTOR as int] == tail_rotor,
{
    let mut assembled = body;
    assembled.add_child(door);
    assembled.add_child(main_rotor);
    assembled.add_child(tail_rotor);
    assembled
}

/// The scene: `root` with the helicopters as its first children, in their
/// order, and the terrain as its last child, so that the terrain is drawn
/// after every helicopter.
pub fn scene<T>(root: SceneNode<T>, helicopters: Vec<SceneNode<T>>, terrain: SceneNode<T>) -> (assembled:
    SceneNode<T>)
    requires
        root.children@.len() == 0,
    ensures
        assembled.transform == root.transform,
        assembled.resource == root.resource,
        assembled.children@ == helicopters@.push(terrain),
{
    let SceneNode { transform, resource, .. } = root;
    let mut parts = helicopters;
    parts.push(terrain);
    SceneNode { transform, resource, children: parts }
}

/// Radians for each second that a main rotor turns about its y axis.
pub const MAIN_ROTOR_SPIN: u32 = 5;

/// Radians for each second that a tail rotor turns about its x axis.
pub const TAIL_ROTOR_SPIN: u32 = 7;

/// Where one helicopter flies relative to the flight path that all of them
/// share. `x_quarters` counts quarters of a unit; `y` and `z` count units.
#[derive(Clone, Copy, Debug, PartialEq, Eq, Structural)]
pub struct InstanceOffset {
    pub x_quarters: i64,
    pub y: i64,
    pub z: i64,
}

/// The offset of helicopter `index`: each helicopter flies 31.25 units
/// further along x and 25 units higher than the one before it, all at the
/// same z.
pub open spec fn spec_instance_offset(index: nat) -> InstanceOffset {
    InstanceOffset {
        x_quarters: (250 + 125 * index) as i64,
        y: (31 + 25 * index) as i64,
        z: -80i64,
    }
}

/// The offset of helicopter `index`.
pub fn instance_offset(index: u32) -> (offset: InstanceOffset)
    ensures
        offset == spec_instance_offset(index as nat),
        offset.x_quarters == 250 + 125 * index,
        offset.y == 31 + 25 * index,
        offset.z == -80,
{
    let i: i64 = index as i64;
    InstanceOffset { x_quarters: 250 + 125 * i, y: 31 + 25 * i, z: -80 }
}

/// Two helicopters differ in place by what their positions in the fleet
/// say and by nothing else: the difference of their offsets is the
/// difference of their indices times the step between neighbours, and two
/// different helicopters never have the same offset.
pub proof fn lemma_instances_differ_by_offset(first: u32, second: u32)
    ensures
        spec_instance_offset(second as nat).x_quarters - spec_instance_offset(
            first as nat,
        ).x_quarters == 125 * (second - first),
        spec_instance_offset(second as nat).y - spec_instance_offset(first as nat).y == 25 * (
        second - first),
        spec_instance_offset(second as nat).z == spec_instance_offset(first as nat).z,
        first != second ==> spec_instance_offset(first as nat) != spec_instance_offset(
            second as nat,
        ),
{
}

} // verus!
