//! Shading programs as the executor describes them after linking.

use crate::search::{names_of, Named};
use vstd::prelude::*;

verus! {

/// Executor-side name of a compiled shader; 0 stands for "no shader".
pub type ShaderName = u32;

/// Executor-side name of a linked program.
pub type ProgramName = u32;

/// Executor-side name of a GPU buffer.
pub type BufferHandle = u32;

/// Executor-side name of a texture.
pub type TextureHandle = u32;

/// Name of a sampler state.
pub type SamplerHandle = usize;

/// Location of a loose uniform inside its program.
pub type Location = u32;

/// Binding point a uniform buffer is attached to.
pub type UniformBufferSlot = u8;

/// A 32-bit IEEE-754 number carried as its bit pattern. The renderer only
/// moves and compares such numbers, never computes with them.
pub type F32Bits = u32;

/// Pipeline stage a shader is compiled for.
#[derive(Clone, Copy, Debug, PartialEq, Eq, Structural)]
pub enum Stage {
    Vertex,
    Fragment,
}

/// Value of a loose uniform.
#[derive(Clone, Copy, Debug, PartialEq, Eq)]
pub enum UniformValue {
    ValueI32(i32),
    ValueF32(F32Bits),
    ValueI32Vec([i32; 4]),
    ValueF32Vec([F32Bits; 4]),
    ValueF32Matrix([[F32Bits; 4]; 4]),
}

fn same_i32x4(a: &[i32; 4], b: &[i32; 4]) -> (same: bool)
    ensures
        same == (*a == *b),
{
    let same = a[0] == b[0] && a[1] == b[1] && a[2] == b[2] && a[3] == b[3];
    proof {
        if same {
            assert(*a =~= *b);
        }
    }
    same
}

fn same_bits4(a: &[F32Bits; 4], b: &[F32Bits; 4]) -> (same: bool)
    ensures
        same == (*a == *b),
{
    let same = a[0] == b[0] && a[1] == b[1] && a[2] == b[2] && a[3] == b[3];
    proof {
        if same {
            assert(*a =~= *b);
        }
    }
    same
}

impl UniformValue {
    /// Whether two values are identical: the same variant holding the same
    /// numbers, bit for bit.
    pub fn same(&self, other: &UniformValue) -> (same: bool)
        ensures
            same == (*self == *other),
    {
        match (self, other) {
            (UniformValue::ValueI32(a), UniformValue::ValueI32(b)) => *a == *b,
            (UniformValue::ValueF32(a), UniformValue::ValueF32(b)) => *a == *b,
            (UniformValue::ValueI32Vec(a), UniformValue::ValueI32Vec(b)) => same_i32x4(a, b),
            (UniformValue::ValueF32Vec(a), UniformValue::ValueF32Vec(b)) => same_bits4(a, b),
            (UniformValue::ValueF32Matrix(a), UniformValue::ValueF32Matrix(b)) => {
                let same = same_bits4(&a[0], &b[0]) && same_bits4(&a[1], &b[1]) && same_bits4(
                    &a[2],
                    &b[2],
                ) && same_bits4(&a[3], &b[3]);
                proof {
                    if same {
                        assert(*a =~= *b);
                    }
                }
                same
            },
            _ => false,
        }
    }
}

/// What a uniform block was last attached to.
#[derive(Clone, Copy, Debug, PartialEq, Eq, Structural)]
pub struct BlockBinding {
    pub slot: u8,
    pub buffer: BufferHandle,
}

/// What a texture slot was last fed from.
#[derive(Clone, Copy, Debug, PartialEq, Eq, Structural)]
pub struct TextureBinding {
    pub texture: TextureHandle,
    pub sampler: SamplerHandle,
}

/// A vertex attribute a program reads, and the slot it reads it from.
#[derive(Clone, Debug, PartialEq, Eq)]
pub struct AttributeVar {
    pub name: String,
    pub slot: u8,
}

/// A uniform block a program reads. `active` remembers the binding most
/// recently issued for it, `None` until the first one.
#[derive(Clone, Debug, PartialEq, Eq)]
pub struct BlockVar {
    pub name: String,
    pub active: Option<BlockBinding>,
}

/// A loose uniform a program reads. `active_value` is the value the program
/// is known to hold for it.
#[derive(Clone, Debug, PartialEq, Eq)]
pub struct UniformVar {
    pub name: String,
    pub location: Location,
    pub active_value: UniformValue,
}

/// A texture a program samples, and the slot it samples it from. `active`
/// remembers the binding most recently issued for it, `None` until the
/// first one.
#[derive(Clone, Debug, PartialEq, Eq)]
pub struct SamplerVar {
    pub name: String,
    pub slot: u8,
    pub active: Option<TextureBinding>,
}

/// A linked program: its executor-side name and the inputs it declares, each
/// list in declaration order.
#[derive(Clone, Debug, PartialEq, Eq)]
pub struct ProgramMeta {
    pub name: ProgramName,
    pub attributes: Vec<AttributeVar>,
    pub blocks: Vec<BlockVar>,
    pub uniforms: Vec<UniformVar>,
    pub textures: Vec<SamplerVar>,
}

impl BlockVar {
    /// Whether `binding` is the one most recently issued for this block.
    pub fn is_bound_to(&self, binding: BlockBinding) -> (bound: bool)
        ensures
            bound == (self.active == Some(binding)),
    {
        match self.active {
            Some(active) => active.slot == binding.slot && active.buffer == binding.buffer,
            None => false,
        }
    }
}

impl SamplerVar {
    /// Whether `binding` is the one most recently issued for this texture.
    pub fn is_bound_to(&self, binding: TextureBinding) -> (bound: bool)
        ensures
            bound == (self.active == Some(binding)),
    {
        match self.active {
            Some(active) => active.texture == binding.texture && active.sampler == binding.sampler,
            None => false,
        }
    }
}

impl Named for AttributeVar {
    open spec fn name_view(&self) -> Seq<char> {
        self.name@
    }

    fn name(&self) -> (name: &String) {
        &self.name
    }
}

impl Named for BlockVar {
    open spec fn name_view(&self) -> Seq<char> {
        self.name@
    }

    fn name(&self) -> (name: &String) {
        &self.name
    }
}

impl Named for UniformVar {
    open spec fn name_view(&self) -> Seq<char> {
        self.name@
    }

    fn name(&self) -> (name: &String) {
        &self.name
    }
}

impl Named for SamplerVar {
    open spec fn name_view(&self) -> Seq<char> {
        self.name@
    }

    fn name(&self) -> (name: &String) {
        &self.name
    }
}

/// A program with its declarations as mathematical sequences.
pub struct ProgramView {
    pub name: ProgramName,
    pub attributes: Seq<AttributeVar>,
    pub blocks: Seq<BlockVar>,
    pub uniforms: Seq<UniformVar>,
    pub textures: Seq<SamplerVar>,
}

impl View for ProgramMeta {
    type V = ProgramView;

    open spec fn view(&self) -> ProgramView {
        ProgramView {
            name: self.name,
            attributes: self.attributes@,
            blocks: self.blocks@,
            uniforms: self.uniforms@,
            textures: self.textures@,
        }
    }
}

impl ProgramView {
    /// Names of the attributes the program declares, in declaration order.
    pub open spec fn attribute_names(self) -> Seq<Seq<char>> {
        names_of(self.attributes)
    }

    /// Names of the uniform blocks the program declares, in declaration order.
    pub open spec fn block_names(self) -> Seq<Seq<char>> {
        names_of(self.blocks)
    }

    /// Names of the loose uniforms the program declares, in declaration order.
    pub open spec fn uniform_names(self) -> Seq<Seq<char>> {
        names_of(self.uniforms)
    }

    /// Names of the textures the program declares, in declaration order.
    pub open spec fn texture_names(self) -> Seq<Seq<char>> {
        names_of(self.textures)
    }
}

} // verus!
