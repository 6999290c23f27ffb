//! Messages exchanged with the executor.
//!
//! A request is either a call, which the executor answers with exactly one
//! reply, or a cast, which it never answers. The executor handles requests
//! in the order they were sent and answers calls in that order.

use crate::mesh::{ElementCount, VertexCount};
use crate::shade::{
    BufferHandle, F32Bits, Location, ProgramMeta, ProgramName, SamplerHandle, ShaderName, Stage,
    TextureHandle, UniformBufferSlot, UniformValue,
};
use crate::target::{Color, FrameBuffer};
use vstd::prelude::*;

verus! {

/// Executor-side name of a vertex-array context.
pub type ArrayBuffer = u32;

/// A message to the executor.
#[derive(Clone, Debug, PartialEq, Eq)]
pub enum Request {
    /// Create a vertex-array context.
    CallNewArrayBuffer,
    /// Compile a shader for a stage from its source text.
    CallNewShader(Stage, Vec<u8>),
    /// Link the named shaders into a program.
    CallNewProgram(Vec<ShaderName>),
    /// Create a vertex buffer holding the given numbers.
    CallNewVertexBuffer(Vec<F32Bits>),
    /// Create an index buffer holding the given indices.
    CallNewIndexBuffer(Vec<u16>),
    /// Create an empty buffer.
    CallNewRawBuffer,
    /// Clear the bound target to a colour.
    CastClear(Color),
    /// Make a program current.
    CastBindProgram(ProgramName),
    /// Make a vertex-array context current.
    CastBindArrayBuffer(ArrayBuffer),
    /// Feed an attribute slot from a buffer: slot, buffer, component count,
    /// byte offset, byte stride.
    CastBindAttribute(u8, BufferHandle, u32, u32, u32),
    /// Make an index buffer current.
    CastBindIndex(BufferHandle),
    /// Make a frame buffer the output target.
    CastBindFrameBuffer(FrameBuffer),
    /// Attach a buffer to a uniform block: program, block slot, binding
    /// point, buffer.
    CastBindUniformBlock(ProgramName, u8, UniformBufferSlot, BufferHandle),
    /// Set a uniform of the current program.
    CastBindUniform(Location, UniformValue),
    /// Feed a texture slot: slot, texture, sampler.
    CastBindTexture(u8, TextureHandle, SamplerHandle),
    /// Replace the contents of a buffer.
    CastUpdateBuffer(BufferHandle, Vec<F32Bits>),
    /// Draw the vertices of a range.
    CastDraw(VertexCount, VertexCount),
    /// Draw the indices of a range of the current index buffer.
    CastDrawIndexed(ElementCount, ElementCount),
    /// Present the finished frame.
    CastSwapBuffers,
}

/// A request with its payload as mathematical sequences.
pub enum RequestView {
    CallNewArrayBuffer,
    CallNewShader(Stage, Seq<u8>),
    CallNewProgram(Seq<ShaderName>),
    CallNewVertexBuffer(Seq<F32Bits>),
    CallNewIndexBuffer(Seq<u16>),
    CallNewRawBuffer,
    CastClear(Color),
    CastBindProgram(ProgramName),
    CastBindArrayBuffer(ArrayBuffer),
    CastBindAttribute(u8, BufferHandle, u32, u32, u32),
    CastBindIndex(BufferHandle),
    CastBindFrameBuffer(FrameBuffer),
    CastBindUniformBlock(ProgramName, u8, UniformBufferSlot, BufferHandle),
    CastBindUniform(Location, UniformValue),
    CastBindTexture(u8, TextureHandle, SamplerHandle),
    CastUpdateBuffer(BufferHandle, Seq<F32Bits>),
    CastDraw(VertexCount, VertexCount),
    CastDrawIndexed(ElementCount, ElementCount),
    CastSwapBuffers,
}

impl View for Request {
    type V = RequestView;

    open spec fn view(&self) -> RequestView {
        match *self {
            Request::CallNewArrayBuffer => RequestView::CallNewArrayBuffer,
            Request::CallNewShader(stage, source) => RequestView::CallNewShader(stage, source@),
            Request::CallNewProgram(shaders) => RequestView::CallNewProgram(shaders@),
            Request::CallNewVertexBuffer(data) => RequestView::CallNewVertexBuffer(data@),
            Request::CallNewIndexBuffer(data) => RequestView::CallNewIndexBuffer(data@),
            Request::CallNewRawBuffer => RequestView::CallNewRawBuffer,
            Request::CastClear(color) => RequestView::CastClear(color),
            Request::CastBindProgram(program) => RequestView::CastBindProgram(program),
            Request::CastBindArrayBuffer(array) => RequestView::CastBindArrayBuffer(array),
            Request::CastBindAttribute(slot, buffer, size, offset, stride) => {
                RequestView::CastBindAttribute(slot, buffer, size, offset, stride)
            },
            Request::CastBindIndex(buffer) => RequestView::CastBindIndex(buffer),
            Request::CastBindFrameBuffer(frame) => RequestView::CastBindFrameBuffer(frame),
            Request::CastBindUniformBlock(program, slot, point, buffer) => {
                RequestView::CastBindUniformBlock(program, slot, point, buffer)
            },
            Request::CastBindUniform(location, value) => RequestView::CastBindUniform(
                location,
                value,
            ),
            Request::CastBindTexture(slot, texture, sampler) => RequestView::CastBindTexture(
                slot,
                texture,
                sampler,
            ),
            Request::CastUpdateBuffer(buffer, data) => RequestView::CastUpdateBuffer(buffer, data@),
            Request::CastDraw(start, end) => RequestView::CastDraw(start, end),
            Request::CastDrawIndexed(start, end) => RequestView::CastDrawIndexed(start, end),
            Request::CastSwapBuffers => RequestView::CastSwapBuffers,
        }
    }
}

impl RequestView {
    /// Whether the executor answers the request.
    pub open spec fn is_call(self) -> bool {
        self is CallNewArrayBuffer || self is CallNewShader || self is CallNewProgram
            || self is CallNewVertexBuffer || self is CallNewIndexBuffer
            || self is CallNewRawBuffer
    }

    /// Whether the request makes the executor draw.
    pub open spec fn is_draw(self) -> bool {
        self is CastDraw || self is CastDrawIndexed
    }
}

/// The executor's answer to a call.
#[derive(Debug, PartialEq, Eq)]
pub enum Reply {
    /// The vertex-array context that was created.
    ReplyNewArrayBuffer(ArrayBuffer),
    /// The shader that was compiled, or that compilation failed.
    ReplyNewShader(Result<ShaderName, ()>),
    /// The program that was linked, or that linking failed.
    ReplyNewProgram(Result<ProgramMeta, ()>),
    /// The buffer that was created.
    ReplyNewBuffer(BufferHandle),
}

/// The shapes a reply can have.
#[derive(Clone, Copy, Debug, PartialEq, Eq, Structural)]
pub enum ReplyKind {
    NewArrayBuffer,
    NewShader,
    NewProgram,
    NewBuffer,
}

impl Reply {
    /// The shape of the reply.
    pub open spec fn spec_kind(&self) -> ReplyKind {
        match *self {
            Reply::ReplyNewArrayBuffer(_) => ReplyKind::NewArrayBuffer,
            Reply::ReplyNewShader(_) => ReplyKind::NewShader,
            Reply::ReplyNewProgram(_) => ReplyKind::NewProgram,
            Reply::ReplyNewBuffer(_) => ReplyKind::NewBuffer,
        }
    }

    /// The shape of the reply.
    #[verifier::when_used_as_spec(spec_kind)]
    pub fn kind(&self) -> (kind: ReplyKind)
        ensures
            kind == self.spec_kind(),
    {
        match self {
            Reply::ReplyNewArrayBuffer(_) => ReplyKind::NewArrayBuffer,
            Reply::ReplyNewShader(_) => ReplyKind::NewShader,
            Reply::ReplyNewProgram(_) => ReplyKind::NewProgram,
            Reply::ReplyNewBuffer(_) => ReplyKind::NewBuffer,
        }
    }
}

/// A reply that does not answer the call that is outstanding: the two sides
/// of the channel no longer agree on where the conversation stands.
#[derive(Clone, Copy, Debug, PartialEq, Eq, Structural)]
pub struct ProtocolError {
    /// The shape the outstanding call is answered with; `None` when no call
    /// is outstanding.
    pub expected: Option<ReplyKind>,
    /// The shape of the reply that arrived.
    pub received: ReplyKind,
}

} // verus!
