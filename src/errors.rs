//! The errors of the rendering pipeline.

use vstd::prelude::*;

use crate::handle::Handle;

verus! {

/// Which structural rule a resource's parameters or data break.
#[derive(Debug, Clone, Copy, PartialEq, Eq, Structural)]
pub enum Invalid {
    /// A shader source is empty.
    EmptySource,
    /// A shader declares more attributes than a vertex holds.
    TooManyAttributes,
    /// A shader attribute has no component, or more than four.
    AttributeSize,
    /// A shader declares the same attribute twice.
    DuplicateAttribute,
    /// A shader attribute is not referenced by the vertex source.
    AttributeNotReferenced,
    /// A shader uniform has an empty name.
    EmptyUniformName,
    /// A shader declares the same uniform twice.
    DuplicateUniform,
    /// A shader uniform is referenced by neither source.
    UniformNotReferenced,
    /// The sub-mesh offsets decrease, or one is not below the index count.
    SubMeshOffsets,
    /// The vertex bytes are not the vertex count times the stride.
    VertexData,
    /// The index bytes are not the index count times the index width.
    IndexData,
    /// A texture has a zero width or height.
    TextureDimensions,
    /// The texture bytes are not the pixel count times the pixel width.
    TextureData,
}

/// An error of the rendering pipeline.
#[derive(Debug, PartialEq, Eq)]
pub enum Error {
    /// Malformed resource parameters or data; rejected before any change.
    ValidationError(Invalid),
    /// The operation names an unknown, freed or stale handle.
    HandleInvalid(Handle),
    /// The frame's command list or payload arena, or a registry, is full.
    CapacityExceeded,
    /// A failure reported by the graphics backend during dispatch.
    BackendError(String),
}

} // verus!
