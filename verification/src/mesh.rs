//! Meshes: where vertex attributes live, and which part of a mesh to draw.

use crate::search::{first, lemma_first_is, lemma_first_none, none};
use crate::shade::BufferHandle;
use vstd::prelude::*;

verus! {

/// A number of vertices, or the position of one.
pub type VertexCount = u16;

/// A number of indices, or the position of one.
pub type ElementCount = u16;

/// One vertex attribute of a mesh: the buffer that holds it and how it is
/// laid out there.
#[derive(Clone, Debug, PartialEq, Eq)]
pub struct Attribute {
    /// The buffer the attribute is read from.
    pub buffer: BufferHandle,
    /// Number of components per vertex.
    pub size: u8,
    /// Byte offset of the first vertex's value.
    pub offset: u32,
    /// Byte distance between consecutive vertices.
    pub stride: u8,
    /// Whether integer components are normalized on fetch.
    pub is_normalized: bool,
    /// Whether the value is interpolated across a primitive.
    pub is_interpolated: bool,
    /// The semantic name a program asks for the attribute by.
    pub name: String,
}

/// An attribute with its name as text.
pub struct AttributeView {
    pub buffer: BufferHandle,
    pub size: u8,
    pub offset: u32,
    pub stride: u8,
    pub is_normalized: bool,
    pub is_interpolated: bool,
    pub name: Seq<char>,
}

impl View for Attribute {
    type V = AttributeView;

    open spec fn view(&self) -> AttributeView {
        AttributeView {
            buffer: self.buffer,
            size: self.size,
            offset: self.offset,
            stride: self.stride,
            is_normalized: self.is_normalized,
            is_interpolated: self.is_interpolated,
            name: self.name@,
        }
    }
}

/// A vertex count and the attributes stored for those vertices.
#[derive(Clone, Debug, PartialEq, Eq)]
pub struct Mesh {
    pub num_vertices: VertexCount,
    pub attributes: Vec<Attribute>,
}

/// A mesh as a vertex count and a sequence of attributes.
pub struct MeshView {
    pub num_vertices: VertexCount,
    pub attributes: Seq<AttributeView>,
}

impl View for Mesh {
    type V = MeshView;

    open spec fn view(&self) -> MeshView {
        MeshView {
            num_vertices: self.num_vertices,
            attributes: Seq::new(self.attributes@.len(), |i: int| self.attributes@[i]@),
        }
    }
}

/// The test "is called `name`".
pub open spec fn is_named(name: Seq<char>) -> spec_fn(Seq<char>) -> bool {
    |n: Seq<char>| n == name
}

impl MeshView {
    /// The names of the attributes, position by position.
    pub open spec fn attribute_names(self) -> Seq<Seq<char>> {
        Seq::new(self.attributes.len(), |i: int| self.attributes[i].name)
    }

    /// Position of the first attribute called `name`.
    pub open spec fn source_of(self, name: Seq<char>) -> Option<int> {
        first(self.attribute_names(), is_named(name))
    }
}

/// The part of a mesh that one draw call covers.
#[derive(Clone, Copy, Debug, PartialEq, Eq, Structural)]
pub enum Slice {
    /// The vertices from the first position up to, not including, the second.
    VertexSlice(VertexCount, VertexCount),
    /// The indices, read from the given buffer, from the first position up
    /// to, not including, the second.
    IndexSlice(BufferHandle, ElementCount, ElementCount),
}

impl Mesh {
    /// A mesh of `num_vertices` vertices that stores no attribute yet.
    pub fn new(num_vertices: VertexCount) -> (mesh: Mesh)
        ensures
            mesh@ == (MeshView { num_vertices, attributes: Seq::empty() }),
    {
        let mesh = Mesh { num_vertices, attributes: Vec::new() };
        assert(mesh@.attributes =~= Seq::empty());
        mesh
    }

    /// Position of the first attribute called `name`, if the mesh has one.
    pub fn find(&self, name: &String) -> (position: Option<usize>)
        ensures
            match position {
                Some(i) => self@.source_of(name@) == Some(i as int),
                None => self@.source_of(name@) is None,
            },
    {
        let ghost wanted = is_named(name@);
        let ghost names = self@.attribute_names();
        let mut i: usize = 0;
        while i < self.attributes.len()
            invariant
                i <= self.attributes@.len(),
                names == self@.attribute_names(),
                wanted == is_named(name@),
                forall|j: int| 0 <= j < i ==> !wanted(#[trigger] names[j]),
            decreases self.attributes@.len() - i,
        {
            if self.attributes[i].name == *name {
                proof {
                    assert(wanted(names[i as int]));
                    lemma_first_is(names, wanted, i as int);
                }
                return Some(i);
            }
            i += 1;
        }
        proof {
            assert(none(names, wanted));
            lemma_first_none(names, wanted);
        }
        None
    }
}

} // verus!
