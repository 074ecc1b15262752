//! The scene tree: nodes that own their children.

use vstd::prelude::*;
use crate::resource::ResourceHandle;

verus! {

/// A node of the scene tree. `transform` is the node's placement relative to
/// its parent, in whatever representation the renderer computes with; the tree
/// stores it and never looks inside. A node owns its children, and the order
/// of `children` is the order in which they are traversed and drawn.
pub struct SceneNode<T> {
    pub transform: T,
    pub resource: Option<ResourceHandle>,
    pub children: Vec<SceneNode<T>>,
}

impl<T> SceneNode<T> {
    /// Whether visiting this node issues a draw call: it has a resource, and
    /// the resource has something to draw.
    pub open spec fn spec_draws(self) -> bool {
        match self.resource {
            Some(handle) => handle.spec_has_geometry(),
            None => false,
        }
    }

    /// A node without geometry and without children: a root or a pivot.
    pub fn new(transform: T) -> (node: SceneNode<T>)
        ensures
            node.transform == transform,
            node.resource.is_none(),
            node.children@.len() == 0,
            !node.spec_draws(),
    {
        SceneNode { transform, resource: None, children: Vec::new() }
    }

    /// A childless node that draws `primitive_count` indices of the vertex
    /// array `array_id`.
    pub fn from_vao(transform: T, array_id: u32, primitive_count: u32) -> (node: SceneNode<T>)
        ensures
            node.transform == transform,
            node.resource == Some(ResourceHandle { array_id, primitive_count }),
            node.children@.len() == 0,
            node.spec_draws() == (primitive_count > 0),
    {
        SceneNode {
            transform,
            resource: Some(ResourceHandle::new(array_id, primitive_count)),
            children: Vec::new(),
        }
    }

    /// Whether visiting this node issues a draw call.
    pub fn draws(&self) -> (drawn: bool)
        ensures
            drawn == self.spec_draws(),
    {
        match &self.resource {
            Some(handle) => handle.has_geometry(),
            None => false,
        }
    }

    /// Appends `child` as the last child; it will be traversed after all the
    /// children that are already there.
    pub fn add_child(&mut self, child: SceneNode<T>)
        ensures
            final(self).children@ == old(self).children@.push(child),
            final(self).transform == old(self).transform,
            final(self).resource == old(self).resource,
    {
        self.children.push(child);
    }

    /// The number of children.
    pub fn child_count(&self) -> (count: usize)
        ensures
            count == self.children@.len(),
    {
        self.children.len()
    }

    /// The child at position `index`.
    pub fn get_child(&self, index: usize) -> (child: &SceneNode<T>)
        requires
            index < self.children@.len(),
        ensures
            *child == self.children@[index as int],
    {
        &self.children[index]
    }

    /// The child at position `index`, for changing it in place. Whatever the
    /// caller does with the child, the other children, the node's own
    /// transform and its resource stay as they were.
    pub fn get_child_mut(&mut self, index: usize) -> (child: &mut SceneNode<T>)
        requires
            index < old(self).children@.len(),
        ensures
            *child == old(self).children@[index as int],
            final(self).children@ == old(self).children@.update(index as int, *final(child)),
            final(self).transform == old(self).transform,
            final(self).resource == old(self).resource,
    {
        &mut self.children[index]
    }
}

} // verus!
