//! The geometry buffers behind a resource handle: when four buffers describe
//! one mesh, and how they are laid out for upload.
//!
//! A mesh comes as three vertex buffers of 32-bit components (positions with
//! three components for each vertex, colors with four, normals with three) and
//! a buffer of 32-bit indices, three for each triangle.

use vstd::prelude::*;
use crate::resource::ResourceHandle;

verus! {

/// Bytes in one component of a vertex buffer, and in one index.
pub const COMPONENT_BYTES: usize = 4;

/// Components of one vertex in the position buffer.
pub const POSITION_COMPONENTS: usize = 3;

/// Components of one vertex in the color buffer.
pub const COLOR_COMPONENTS: usize = 4;

/// Components of one vertex in the normal buffer.
pub const NORMAL_COMPONENTS: usize = 3;

/// Indices of one triangle.
pub const TRIANGLE_INDICES: usize = 3;

/// The largest number of indices that one draw call takes.
pub const MAX_PRIMITIVE_COUNT: usize = 0x7fff_ffff;

/// The number of vertices that a position buffer of `positions` components
/// describes.
pub open spec fn spec_vertex_count(positions: nat) -> nat {
    positions / 3
}

/// Whether buffers of these lengths describe one mesh: none is empty, each
/// vertex buffer holds whole vertices and all three hold the same number of
/// them, the index buffer holds whole triangles, and every index names one
/// of the vertices.
pub open spec fn spec_consistent(positions: nat, colors: nat, normals: nat, indices: Seq<u32>) -> bool {
    &&& positions > 0
    &&& positions % 3 == 0
    &&& colors % 4 == 0
    &&& normals % 3 == 0
    &&& colors / 4 == spec_vertex_count(positions)
    &&& normals / 3 == spec_vertex_count(positions)
    &&& indices.len() > 0
    &&& indices.len() % 3 == 0
    &&& forall|i: int| 0 <= i < indices.len() ==> indices[i] < spec_vertex_count(positions)
}

/// Whether buffers of these lengths can be handed to the GPU: the size in
/// bytes of each fits the signed size that an upload takes, and the indices
/// fit the count that a draw call takes.
pub open spec fn spec_fits(positions: nat, colors: nat, normals: nat, indices: nat) -> bool {
    &&& positions * 4 <= isize::MAX
    &&& colors * 4 <= isize::MAX
    &&& normals * 4 <= isize::MAX
    &&& indices * 4 <= isize::MAX
    &&& indices <= 0x7fff_ffff
}

/// Whether every index of `indices` names one of `vertex_count` vertices.
pub fn indices_in_range(indices: &Vec<u32>, vertex_count: usize) -> (ok: bool)
    ensures
        ok == (forall|i: int| 0 <= i < indices@.len() ==> indices@[i] < vertex_count),
{
    let mut i: usize = 0;
    while i < indices.len()
        invariant
            i <= indices@.len(),
            forall|j: int| 0 <= j < i ==> indices@[j] < vertex_count,
        decreases indices@.len() - i,
    {
        if indices[i] as usize >= vertex_count {
            return false;
        }
        i += 1;
    }
    true
}

/// Whether buffers of these lengths describe one mesh.
pub fn is_consistent(positions: usize, colors: usize, normals: usize, indices: &Vec<u32>) -> (ok:
    bool)
    ensures
        ok == spec_consistent(positions as nat, colors as nat, normals as nat, indices@),
{
    if positions == 0 || positions % POSITION_COMPONENTS != 0 {
        return false;
    }
    let vertex_count = positions / POSITION_COMPONENTS;
    if colors % COLOR_COMPONENTS != 0 || colors / COLOR_COMPONENTS != vertex_count {
        return false;
    }
    if normals % NORMAL_COMPONENTS != 0 || normals / NORMAL_COMPONENTS != vertex_count {
        return false;
    }
    if indices.len() == 0 || indices.len() % TRIANGLE_INDICES != 0 {
        return false;
    }
    indices_in_range(indices, vertex_count)
}

/// Whether buffers of these lengths can be handed to the GPU.
pub fn fits(positions: usize, colors: usize, normals: usize, indices: usize) -> (ok: bool)
    ensures
        ok == spec_fits(positions as nat, colors as nat, normals as nat, indices as nat),
{
    let most = isize::MAX as usize / COMPONENT_BYTES;
    positions <= most && colors <= most && normals <= most && indices <= most && indices
        <= MAX_PRIMITIVE_COUNT
}

/// One of the three vertex attributes of a mesh.
#[derive(Clone, Copy, Debug, PartialEq, Eq, Structural)]
pub enum Attribute {
    Position,
    Color,
    Normal,
}

impl Attribute {
    /// The attribute slot that the shaders read this attribute from.
    pub open spec fn spec_slot(self) -> u32 {
        match self {
            Attribute::Position => 0,
            Attribute::Color => 1,
            Attribute::Normal => 2,
        }
    }

    /// The number of components that one vertex has in this attribute.
    pub open spec fn spec_components(self) -> i32 {
        match self {
            Attribute::Position => 3,
            Attribute::Color => 4,
            Attribute::Normal => 3,
        }
    }

    /// The distance in bytes from one vertex to the next in this attribute's
    /// buffer: the buffers are tightly packed.
    pub open spec fn spec_stride(self) -> i32 {
        (self.spec_components() * 4) as i32
    }

    /// The attribute slot that the shaders read this attribute from.
    pub fn slot(self) -> (slot: u32)
        ensures
            slot == self.spec_slot(),
    {
        match self {
            Attribute::Position => 0,
            Attribute::Color => 1,
            Attribute::Normal => 2,
        }
    }

    /// The number of components that one vertex has in this attribute.
    pub fn components(self) -> (components: i32)
        ensures
            components == self.spec_components(),
    {
        match self {
            Attribute::Position => 3,
            Attribute::Color => 4,
            Attribute::Normal => 3,
        }
    }

    /// The distance in bytes from one vertex to the next in this attribute's
    /// buffer.
    pub fn stride(self) -> (stride: i32)
        ensures
            stride == self.spec_stride(),
            stride == self.spec_components() * 4,
    {
        self.components() * 4
    }
}

/// One step of bringing a mesh to the GPU. The steps of a plan are carried
/// out in order, on one vertex array; all data is uploaded for static use.
#[derive(Clone, Copy, Debug, PartialEq, Eq, Structural)]
pub enum UploadStep {
    /// Create the vertex array and bind it.
    CreateVertexArray,
    /// Create a vertex buffer, bind it and fill it with the `bytes` bytes of
    /// the buffer that holds `attribute`.
    UploadVertexBuffer { attribute: Attribute, bytes: isize },
    /// Describe the bound vertex buffer as the source of attribute `slot`:
    /// `components` unnormalized 32-bit components for each vertex, `stride`
    /// bytes apart, from the start of the buffer.
    DescribeAttribute { slot: u32, components: i32, stride: i32 },
    /// Enable attribute `slot`.
    EnableAttribute { slot: u32 },
    /// Create the index buffer, bind it and fill it with the `bytes` bytes
    /// of the indices.
    UploadIndexBuffer { bytes: isize },
}

/// The three steps that bring one vertex attribute to the GPU from a buffer
/// of `components` components.
pub open spec fn spec_attribute_steps(attribute: Attribute, components: nat) -> Seq<UploadStep> {
    seq![
        UploadStep::UploadVertexBuffer { attribute, bytes: (components * 4) as isize },
        UploadStep::DescribeAttribute {
            slot: attribute.spec_slot(),
            components: attribute.spec_components(),
            stride: attribute.spec_stride(),
        },
        UploadStep::EnableAttribute { slot: attribute.spec_slot() },
    ]
}

/// The steps that bring a mesh to the GPU: the vertex array, then positions,
/// colors and normals, each uploaded, described and enabled, then the
/// indices.
pub open spec fn spec_upload_plan(positions: nat, colors: nat, normals: nat, indices: nat) -> Seq<
    UploadStep,
> {
    seq![UploadStep::CreateVertexArray] + spec_attribute_steps(Attribute::Position, positions)
        + spec_attribute_steps(Attribute::Color, colors) + spec_attribute_steps(
        Attribute::Normal,
        normals,
    ) + seq![UploadStep::UploadIndexBuffer { bytes: (indices * 4) as isize }]
}

/// The size in bytes of a buffer of `count` 32-bit items.
pub fn byte_size(count: usize) -> (bytes: isize)
    requires
        count * 4 <= isize::MAX,
    ensures
        bytes == count * 4,
{
    (count * COMPONENT_BYTES) as isize
}

/// Appends the three steps that bring `attribute` to the GPU from a buffer
/// of `components` components.
fn push_attribute_steps(plan: &mut Vec<UploadStep>, attribute: Attribute, components: usize)
    requires
        components * 4 <= isize::MAX,
    ensures
        final(plan)@ == old(plan)@ + spec_attribute_steps(attribute, components as nat),
{
    plan.push(UploadStep::UploadVertexBuffer { attribute, bytes: byte_size(components) });
    plan.push(
        UploadStep::DescribeAttribute {
            slot: attribute.slot(),
            components: attribute.components(),
            stride: attribute.stride(),
        },
    );
    plan.push(UploadStep::EnableAttribute { slot: attribute.slot() });
}

/// The steps that bring a mesh to the GPU, for buffers of these lengths.
/// Buffers that do not describe one mesh are a mistake of the caller.
pub fn upload_plan(positions: usize, colors: usize, normals: usize, indices: &Vec<u32>) -> (plan:
    Vec<UploadStep>)
    requires
        spec_consistent(positions as nat, colors as nat, normals as nat, indices@),
        spec_fits(positions as nat, colors as nat, normals as nat, indices@.len()),
    ensures
        plan@ == spec_upload_plan(
            positions as nat,
            colors as nat,
            normals as nat,
            indices@.len(),
        ),
{
    let mut plan: Vec<UploadStep> = Vec::new();
    plan.push(UploadStep::CreateVertexArray);
    push_attribute_steps(&mut plan, Attribute::Position, positions);
    push_attribute_steps(&mut plan, Attribute::Color, colors);
    push_attribute_steps(&mut plan, Attribute::Normal, normals);
    plan.push(UploadStep::UploadIndexBuffer { bytes: byte_size(indices.len()) });
    plan
}

/// The handle to the vertex array `array_id` once the mesh with these
/// indices has been uploaded to it: a draw call draws all of the indices.
/// A mesh has at least one triangle, so the handle has geometry.
pub fn uploaded_handle(array_id: u32, indices: &Vec<u32>) -> (handle: ResourceHandle)
    requires
        0 < indices@.len() <= 0x7fff_ffff,
        indices@.len() % 3 == 0,
    ensures
        handle.array_id == array_id,
        handle.primitive_count == indices@.len(),
        handle.spec_has_geometry(),
{
    ResourceHandle::new(array_id, indices.len() as u32)
}

} // verus!
