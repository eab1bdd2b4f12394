//! Non-owning identifiers of graphics resources. The draw environment only
//! ever reads their integer identity.

use core::marker::PhantomData;
use vstd::prelude::*;

verus! {

/// Identifies a compiled and linked shader program.
#[derive(Clone, Copy, Debug, PartialEq, Eq)]
pub struct ShaderHandle {
    id: usize,
}

/// Identifies a GPU buffer whose elements are of type `T`.
pub struct BufferHandle<T> {
    id: usize,
    elem: PhantomData<T>,
}

/// Identifies a texture object.
#[derive(Clone, Copy, Debug, PartialEq, Eq)]
pub struct TextureHandle {
    id: usize,
}

impl ShaderHandle {
    /// The identity this handle stands for.
    pub closed spec fn id(&self) -> usize {
        self.id
    }

    /// Wraps the identity of a shader program.
    pub fn from_id(id: usize) -> (r: Self)
        ensures
            r.id() == id,
    {
        ShaderHandle { id }
    }

    /// The stable integer identity of the program.
    pub fn get_id(&self) -> (r: usize)
        ensures
            r == self.id(),
    {
        self.id
    }
}

impl<T> BufferHandle<T> {
    /// The identity this handle stands for.
    pub closed spec fn id(&self) -> usize {
        self.id
    }

    /// Wraps the identity of a buffer.
    pub fn from_id(id: usize) -> (r: Self)
        ensures
            r.id() == id,
    {
        BufferHandle { id, elem: PhantomData }
    }

    /// The stable integer identity of the buffer.
    pub fn get_id(&self) -> (r: usize)
        ensures
            r == self.id(),
    {
        self.id
    }
}

impl TextureHandle {
    /// The identity this handle stands for.
    pub closed spec fn id(&self) -> usize {
        self.id
    }

    /// Wraps the identity of a texture.
    pub fn from_id(id: usize) -> (r: Self)
        ensures
            r.id() == id,
    {
        TextureHandle { id }
    }

    /// The stable integer identity of the texture.
    pub fn get_id(&self) -> (r: usize)
        ensures
            r == self.id(),
    {
        self.id
    }
}

} // verus!
