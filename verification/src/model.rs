//! The renderer as a state machine over mathematical values.
//!
//! Every operation of the renderer is a function from the state before to
//! the state after and what the caller is told. The executable renderer is
//! verified to compute exactly these functions.

use crate::binding::{
    attribute_requests, environment_requests, mismatch, program_after, slice_requests,
    AttributeMismatch,
};
use crate::envir::{resolved, unanswered, OptimizationError, StorageView};
use crate::handle::{EnvirHandle, MeshHandle, ProgramHandle};
use crate::mesh::{AttributeView, MeshView, Slice, VertexCount};
use crate::protocol::{ArrayBuffer, ProtocolError, Reply, ReplyKind, RequestView};
use crate::shade::{
    BufferHandle, F32Bits, ProgramView, SamplerHandle, ShaderName, Stage, TextureBinding,
    TextureHandle, UniformValue,
};
use crate::target::{ClearData, FrameBuffer};
use vstd::prelude::*;

verus! {

/// What one draw call draws, with what, and from where.
#[derive(Clone, Copy, Debug, PartialEq, Eq, Structural)]
pub struct DrawCall {
    pub mesh: MeshHandle,
    pub slice: Slice,
    pub program: ProgramHandle,
    pub environment: EnvirHandle,
}

/// The call the renderer is waiting to have answered, and what it needs to
/// carry on once the answer is there.
#[derive(Clone, Copy, Debug, PartialEq, Eq, Structural)]
pub enum Pending {
    /// No call is outstanding.
    Idle,
    /// A draw waits for the shared vertex-array context to be created.
    ArrayBuffer(DrawCall),
    /// A program waits for its vertex shader. The fragment shader has not
    /// been sent yet; its source text is held back until this answer is in.
    VertexShader,
    /// A program waits for its fragment shader; the vertex shader has the
    /// given name.
    FragmentShader(ShaderName),
    /// A program waits to be linked.
    Program,
    /// A mesh waits for its vertex buffer: vertex count, then component
    /// count and byte stride of its position attribute.
    VertexBuffer(VertexCount, u8, u8),
    /// An index buffer waits to be created.
    IndexBuffer,
    /// An empty buffer waits to be created.
    RawBuffer,
}

/// How an operation ended.
#[derive(Debug, PartialEq, Eq)]
pub enum Outcome {
    /// The draw was issued.
    Drawn,
    /// The draw was given up before any input was bound: the environment
    /// does not cover the program.
    Skipped(OptimizationError),
    /// The draw was given up while binding the mesh: the mesh does not
    /// cover the program.
    Mismatched(AttributeMismatch),
    /// The program was created under this handle, or, for handle 0, may
    /// have failed to link.
    Program(ProgramHandle),
    /// The mesh was created under this handle.
    Mesh(MeshHandle),
    /// The buffer was created under this name.
    Buffer(BufferHandle),
}

/// Where an operation stands.
#[derive(Debug, PartialEq, Eq)]
pub enum Progress {
    /// A call is outstanding; the operation goes on when its reply is
    /// handed over.
    Waiting,
    /// The operation is over.
    Finished(Outcome),
}

/// The name a shader compilation answered with, 0 where it failed.
pub open spec fn shader_name(answer: Result<ShaderName, ()>) -> ShaderName {
    match answer {
        Ok(name) => name,
        Err(_) => 0,
    }
}

/// A mesh whose only attribute is a position, read from the start of
/// `buffer`.
pub open spec fn position_mesh(
    num_vertices: VertexCount,
    buffer: BufferHandle,
    count: u8,
    stride: u8,
) -> MeshView {
    MeshView {
        num_vertices,
        attributes: seq![
            AttributeView {
                buffer,
                size: count,
                offset: 0,
                stride,
                is_normalized: false,
                is_interpolated: false,
                name: "a_Pos"@,
            },
        ],
    }
}

impl Pending {
    /// The shape of the reply that answers the outstanding call.
    pub open spec fn spec_expects(self) -> Option<ReplyKind> {
        match self {
            Pending::Idle => None,
            Pending::ArrayBuffer(_) => Some(ReplyKind::NewArrayBuffer),
            Pending::VertexShader => Some(ReplyKind::NewShader),
            Pending::FragmentShader(_) => Some(ReplyKind::NewShader),
            Pending::Program => Some(ReplyKind::NewProgram),
            Pending::VertexBuffer(_, _, _) => Some(ReplyKind::NewBuffer),
            Pending::IndexBuffer => Some(ReplyKind::NewBuffer),
            Pending::RawBuffer => Some(ReplyKind::NewBuffer),
        }
    }

    /// The shape of the reply that answers the outstanding call.
    #[verifier::when_used_as_spec(spec_expects)]
    pub fn expects(self) -> (kind: Option<ReplyKind>)
        ensures
            kind == self.spec_expects(),
    {
        match self {
            Pending::Idle => None,
            Pending::ArrayBuffer(_) => Some(ReplyKind::NewArrayBuffer),
            Pending::VertexShader => Some(ReplyKind::NewShader),
            Pending::FragmentShader(_) => Some(ReplyKind::NewShader),
            Pending::Program => Some(ReplyKind::NewProgram),
            Pending::VertexBuffer(_, _, _) => Some(ReplyKind::NewBuffer),
            Pending::IndexBuffer => Some(ReplyKind::NewBuffer),
            Pending::RawBuffer => Some(ReplyKind::NewBuffer),
        }
    }
}

/// The state of a renderer.
pub struct RendererView {
    /// The meshes created so far, by handle.
    pub meshes: Seq<MeshView>,
    /// The programs created so far, by handle.
    pub programs: Seq<ProgramView>,
    /// The environments registered so far, by handle.
    pub environments: Seq<StorageView>,
    /// The shared vertex-array context, once it exists.
    pub array_buffer: Option<ArrayBuffer>,
    /// The frame buffer that draws and clears go to.
    pub frame_buffer: FrameBuffer,
    /// The call that is outstanding.
    pub pending: Pending,
    /// The source text of the fragment shader held back while a program
    /// waits for its vertex shader; empty once it has been sent.
    pub fragment_source: Seq<u8>,
    /// The requests issued and not yet collected, oldest first.
    pub outbox: Seq<RequestView>,
}

impl RendererView {
    /// The state of a new renderer.
    pub open spec fn initial() -> RendererView {
        RendererView {
            meshes: Seq::empty(),
            programs: Seq::empty(),
            environments: Seq::empty(),
            array_buffer: None,
            frame_buffer: 0,
            pending: Pending::Idle,
            fragment_source: Seq::empty(),
            outbox: Seq::empty(),
        }
    }

    /// Every handle of `call` was issued by this renderer.
    pub open spec fn knows(self, call: DrawCall) -> bool {
        &&& call.mesh < self.meshes.len()
        &&& call.program < self.programs.len()
        &&& call.environment < self.environments.len()
    }

    /// A draw that is waiting uses handles this renderer issued.
    pub open spec fn wf(self) -> bool {
        self.pending matches Pending::ArrayBuffer(call) ==> self.knows(call)
    }

    /// The state after issuing `requests`.
    pub open spec fn send(self, requests: Seq<RequestView>) -> RendererView {
        RendererView { outbox: self.outbox + requests, ..self }
    }

    /// The state once the outbox was collected.
    pub open spec fn take_requests(self) -> RendererView {
        RendererView { outbox: Seq::empty(), ..self }
    }

    /// The requests that make the default frame buffer the output target.
    pub open spec fn frame_requests(self) -> Seq<RequestView> {
        seq![RequestView::CastBindFrameBuffer(self.frame_buffer)]
    }

    /// Clearing the default target: the target is bound, then cleared to the
    /// colour of `data` where it has one.
    pub open spec fn clear(self, data: ClearData) -> RendererView {
        match data.color {
            Some(color) => self.send(self.frame_requests() + seq![RequestView::CastClear(color)]),
            None => self.send(self.frame_requests()),
        }
    }

    /// Presenting the frame.
    pub open spec fn end_frame(self) -> RendererView {
        self.send(seq![RequestView::CastSwapBuffers])
    }

    /// Replacing the contents of `buffer` by `data`.
    pub open spec fn update_buffer(self, buffer: BufferHandle, data: Seq<F32Bits>) -> RendererView {
        self.send(seq![RequestView::CastUpdateBuffer(buffer, data)])
    }

    /// Registering `storage`: it gets the next environment handle.
    pub open spec fn create_environment(self, storage: StorageView) -> RendererView {
        RendererView { environments: self.environments.push(storage), ..self }
    }

    /// The state with environment `handle` replaced by `storage`.
    pub open spec fn with_environment(self, handle: EnvirHandle, storage: StorageView) -> RendererView {
        RendererView { environments: self.environments.update(handle as int, storage), ..self }
    }

    /// Binding block `name` of environment `handle` to `buffer`.
    pub open spec fn set_env_block(
        self,
        handle: EnvirHandle,
        name: Seq<char>,
        buffer: BufferHandle,
    ) -> RendererView {
        let env = self.environments[handle as int];
        self.with_environment(
            handle,
            StorageView { blocks: env.blocks.insert(name, buffer), ..env },
        )
    }

    /// Giving uniform `name` of environment `handle` the value `value`.
    pub open spec fn set_env_uniform(
        self,
        handle: EnvirHandle,
        name: Seq<char>,
        value: UniformValue,
    ) -> RendererView {
        let env = self.environments[handle as int];
        self.with_environment(
            handle,
            StorageView { uniforms: env.uniforms.insert(name, value), ..env },
        )
    }

    /// Binding texture `name` of environment `handle` to `texture` read
    /// through `sampler`.
    pub open spec fn set_env_texture(
        self,
        handle: EnvirHandle,
        name: Seq<char>,
        texture: TextureHandle,
        sampler: SamplerHandle,
    ) -> RendererView {
        let env = self.environments[handle as int];
        self.with_environment(
            handle,
            StorageView {
                textures: env.textures.insert(name, TextureBinding { texture, sampler }),
                ..env
            },
        )
    }

    /// Starting a program: the vertex shader is sent for compilation and its
    /// answer awaited; the source text of the fragment shader is held back.
    pub open spec fn create_program(self, vs_src: Seq<u8>, fs_src: Seq<u8>) -> RendererView {
        RendererView {
            pending: Pending::VertexShader,
            fragment_source: fs_src,
            ..self.send(seq![RequestView::CallNewShader(Stage::Vertex, vs_src)])
        }
    }

    /// Starting a mesh: its vertex data is sent and the buffer awaited.
    pub open spec fn create_mesh(
        self,
        num_vertices: VertexCount,
        data: Seq<F32Bits>,
        count: u8,
        stride: u8,
    ) -> RendererView {
        RendererView {
            pending: Pending::VertexBuffer(num_vertices, count, stride),
            ..self.send(seq![RequestView::CallNewVertexBuffer(data)])
        }
    }

    /// Starting an index buffer: its indices are sent and the buffer awaited.
    pub open spec fn create_index_buffer(self, data: Seq<u16>) -> RendererView {
        RendererView {
            pending: Pending::IndexBuffer,
            ..self.send(seq![RequestView::CallNewIndexBuffer(data)])
        }
    }

    /// Starting an empty buffer: the request is sent and the buffer awaited.
    pub open spec fn create_raw_buffer(self) -> RendererView {
        RendererView {
            pending: Pending::RawBuffer,
            ..self.send(seq![RequestView::CallNewRawBuffer])
        }
    }

    /// The part of a draw that follows once the target is bound and the
    /// shared vertex-array context `array` exists.
    ///
    /// The environment is matched against the program; where it does not
    /// cover it, the draw is skipped and nothing is issued. Otherwise the
    /// environment is bound, then the vertex-array context, then the mesh;
    /// where the mesh does not cover the program the draw ends there, with
    /// what was bound so far left in the stream. Otherwise the slice is
    /// drawn.
    pub open spec fn finish_draw(self, array: ArrayBuffer, call: DrawCall) -> (
        RendererView,
        Outcome,
    ) {
        let program = self.programs[call.program as int];
        let env = self.environments[call.environment as int];
        let mesh = self.meshes[call.mesh as int];
        match unanswered(env, program) {
            Some(error) => (self, Outcome::Skipped(error)),
            None => {
                let buffers = resolved(env.blocks, program.block_names());
                let values = resolved(env.uniforms, program.uniform_names());
                let bindings = resolved(env.textures, program.texture_names());
                let bound = RendererView {
                    programs: self.programs.update(
                        call.program as int,
                        program_after(program, buffers, values, bindings),
                    ),
                    ..self
                }.send(
                    environment_requests(program, buffers, values, bindings)
                        + seq![RequestView::CastBindArrayBuffer(array)] + attribute_requests(
                        mesh,
                        program,
                    ),
                );
                match mismatch(mesh, program) {
                    Some(error) => (bound, Outcome::Mismatched(error)),
                    None => (bound.send(slice_requests(call.slice)), Outcome::Drawn),
                }
            },
        }
    }

    /// Drawing to the default target: the target is bound; then the draw
    /// carries on at once where the shared vertex-array context exists, and
    /// otherwise asks for one and waits.
    pub open spec fn draw(self, call: DrawCall) -> (RendererView, Progress) {
        let targeted = self.send(self.frame_requests());
        match self.array_buffer {
            Some(array) => {
                let (after, outcome) = targeted.finish_draw(array, call);
                (after, Progress::Finished(outcome))
            },
            None => (
                RendererView {
                    pending: Pending::ArrayBuffer(call),
                    ..targeted.send(seq![RequestView::CallNewArrayBuffer])
                },
                Progress::Waiting,
            ),
        }
    }

    /// The error for a reply that does not answer the outstanding call.
    pub open spec fn unexpected(self, reply: Reply) -> ProtocolError {
        ProtocolError { expected: self.pending.spec_expects(), received: reply.spec_kind() }
    }

    /// Taking a reply from the executor.
    ///
    /// A reply of the shape the outstanding call is answered with moves the
    /// operation on; any other reply, and any reply while no call is
    /// outstanding, is an error and changes nothing. An operation that
    /// moves on issues its next call only now, with the reply to the last
    /// one in hand: a program sends its fragment shader on the vertex
    /// shader's answer and asks for the link on the fragment shader's.
    pub open spec fn resume(self, reply: Reply) -> (RendererView, Result<Progress, ProtocolError>) {
        let idle = RendererView { pending: Pending::Idle, ..self };
        match (self.pending, reply) {
            (Pending::ArrayBuffer(call), Reply::ReplyNewArrayBuffer(array)) => {
                let (after, outcome) = RendererView {
                    array_buffer: Some(array),
                    ..idle
                }.finish_draw(array, call);
                (after, Ok(Progress::Finished(outcome)))
            },
            (Pending::VertexShader, Reply::ReplyNewShader(answer)) => (
                RendererView {
                    pending: Pending::FragmentShader(shader_name(answer)),
                    fragment_source: Seq::empty(),
                    ..self.send(
                        seq![RequestView::CallNewShader(Stage::Fragment, self.fragment_source)],
                    )
                },
                Ok(Progress::Waiting),
            ),
            (Pending::FragmentShader(vertex), Reply::ReplyNewShader(answer)) => (
                RendererView {
                    pending: Pending::Program,
                    ..self.send(seq![RequestView::CallNewProgram(seq![vertex, shader_name(answer)])])
                },
                Ok(Progress::Waiting),
            ),
            (Pending::Program, Reply::ReplyNewProgram(Ok(program))) => (
                RendererView { programs: self.programs.push(program@), ..idle },
                Ok(Progress::Finished(Outcome::Program(self.programs.len() as usize))),
            ),
            (Pending::Program, Reply::ReplyNewProgram(Err(_))) => (
                idle,
                Ok(Progress::Finished(Outcome::Program(0))),
            ),
            (Pending::VertexBuffer(num_vertices, count, stride), Reply::ReplyNewBuffer(buffer)) => (
                RendererView {
                    meshes: self.meshes.push(position_mesh(num_vertices, buffer, count, stride)),
                    ..idle
                },
                Ok(Progress::Finished(Outcome::Mesh(self.meshes.len() as usize))),
            ),
            (Pending::IndexBuffer, Reply::ReplyNewBuffer(buffer)) => (
                idle,
                Ok(Progress::Finished(Outcome::Buffer(buffer))),
            ),
            (Pending::RawBuffer, Reply::ReplyNewBuffer(buffer)) => (
                idle,
                Ok(Progress::Finished(Outcome::Buffer(buffer))),
            ),
            _ => (self, Err(self.unexpected(reply))),
        }
    }
}

} // verus!
