//! The renderer: resource creation, and the ordered stream of requests
//! that clears, draws and presents.
//!
//! The renderer never talks to the executor itself. An operation appends
//! its requests to the outbox; the owner sends them on, in order. Where an
//! operation needs an answer, it reports `Waiting` and the owner hands the
//! reply to `resume`, which carries the operation on. At most one operation
//! is under way at any time, since a new one starts only while the renderer
//! is idle; and at most one call is outstanding at any time, since an
//! operation issues its next call only when it is handed the reply to the
//! last.

use crate::binding::{bind_environment, bind_mesh, bind_slice, lemma_mismatch};
use crate::envir::Storage;
use crate::handle::{EnvirHandle, MeshHandle, ProgramHandle, Table};
use crate::lift::{lemma_views_push, lemma_views_update, views};
use crate::mesh::{Attribute, Mesh, Slice, VertexCount};
use crate::model::{position_mesh, DrawCall, Outcome, Pending, Progress, RendererView};
use crate::protocol::{ArrayBuffer, ProtocolError, Reply, Request};
use crate::shade::{
    BufferHandle, F32Bits, ProgramMeta, SamplerHandle, Stage, TextureHandle, UniformValue,
};
use crate::target::{ClearData, Frame, FrameBuffer};
use vstd::prelude::*;

verus! {

/// Descriptions of the resources created so far, by handle.
struct Cache {
    meshes: Table<Mesh>,
    programs: Table<ProgramMeta>,
    environments: Table<Storage>,
}

/// The orchestrator of draws.
pub struct Renderer {
    /// Requests issued and not yet collected, oldest first.
    outbox: Vec<Request>,
    /// The vertex-array context shared by all meshes, created on first use.
    common_array_buffer: Option<ArrayBuffer>,
    /// The frame buffer drawn to by default.
    default_frame_buffer: FrameBuffer,
    /// Descriptions of meshes, programs and environments.
    cache: Cache,
    /// The call that is outstanding.
    pending: Pending,
    /// The source text of the fragment shader of the program being created,
    /// held back until the vertex shader has been answered.
    fragment_source: Vec<u8>,
}

impl View for Renderer {
    type V = RendererView;

    closed spec fn view(&self) -> RendererView {
        RendererView {
            meshes: views(self.cache.meshes@),
            programs: views(self.cache.programs@),
            environments: views(self.cache.environments@),
            array_buffer: self.common_array_buffer,
            frame_buffer: self.default_frame_buffer,
            pending: self.pending,
            fragment_source: self.fragment_source@,
            outbox: views(self.outbox@),
        }
    }
}

impl Renderer {
    /// A renderer that has created nothing and issued nothing.
    pub fn new() -> (renderer: Renderer)
        ensures
            renderer@ == RendererView::initial(),
            renderer@.wf(),
    {
        let renderer = Renderer {
            outbox: Vec::new(),
            common_array_buffer: None,
            default_frame_buffer: 0,
            cache: Cache {
                meshes: Table::new(),
                programs: Table::new(),
                environments: Table::new(),
            },
            pending: Pending::Idle,
            fragment_source: Vec::new(),
        };
        proof {
            assert(renderer@.meshes =~= Seq::empty());
            assert(renderer@.programs =~= Seq::empty());
            assert(renderer@.environments =~= Seq::empty());
            assert(renderer@.outbox =~= Seq::empty());
        }
        renderer
    }

    /// The call that is outstanding.
    pub fn pending(&self) -> (pending: Pending)
        ensures
            pending == self@.pending,
    {
        self.pending
    }

    /// Whether no call is outstanding.
    pub fn is_idle(&self) -> (idle: bool)
        ensures
            idle == (self@.pending is Idle),
    {
        match self.pending {
            Pending::Idle => true,
            _ => false,
        }
    }

    /// Whether a waiting draw names resources of this renderer only. This
    /// holds of every renderer made by `new` and changed by the operations
    /// below.
    pub fn is_well_formed(&self) -> (well_formed: bool)
        ensures
            well_formed == self@.wf(),
    {
        match self.pending {
            Pending::ArrayBuffer(call) => self.knows(call),
            _ => true,
        }
    }

    /// Whether every handle of `call` was issued by this renderer.
    pub fn knows(&self, call: DrawCall) -> (known: bool)
        ensures
            known == self@.knows(call),
    {
        self.cache.meshes.contains(call.mesh) && self.cache.programs.contains(call.program)
            && self.cache.environments.contains(call.environment)
    }

    /// Number of meshes created so far.
    pub fn mesh_count(&self) -> (n: usize)
        ensures
            n == self@.meshes.len(),
    {
        self.cache.meshes.len()
    }

    /// Number of programs created so far.
    pub fn program_count(&self) -> (n: usize)
        ensures
            n == self@.programs.len(),
    {
        self.cache.programs.len()
    }

    /// Number of environments registered so far.
    pub fn environment_count(&self) -> (n: usize)
        ensures
            n == self@.environments.len(),
    {
        self.cache.environments.len()
    }

    /// The description of the mesh behind `handle`.
    pub fn mesh(&self, handle: MeshHandle) -> (mesh: &Mesh)
        requires
            handle < self@.meshes.len(),
        ensures
            mesh@ == self@.meshes[handle as int],
    {
        self.cache.meshes.get(handle)
    }

    /// The description of the program behind `handle`, with what its inputs
    /// were last bound to.
    pub fn program(&self, handle: ProgramHandle) -> (program: &ProgramMeta)
        requires
            handle < self@.programs.len(),
        ensures
            program@ == self@.programs[handle as int],
    {
        self.cache.programs.get(handle)
    }

    /// The environment behind `handle`.
    pub fn environment(&self, handle: EnvirHandle) -> (storage: &Storage)
        requires
            handle < self@.environments.len(),
        ensures
            storage@ == self@.environments[handle as int],
    {
        self.cache.environments.get(handle)
    }

    /// Hands over the requests issued since the last collection, oldest
    /// first, and empties the outbox.
    pub fn take_requests(&mut self) -> (requests: Vec<Request>)
        ensures
            views(requests@) == old(self)@.outbox,
            requests@.len() == old(self)@.outbox.len(),
            final(self)@ == old(self)@.take_requests(),
    {
        let mut requests: Vec<Request> = Vec::new();
        core::mem::swap(&mut self.outbox, &mut requests);
        proof {
            assert(self@.outbox =~= Seq::empty());
        }
        requests
    }

    /// Appends `request` to the outbox.
    fn send(&mut self, request: Request)
        ensures
            final(self)@ == old(self)@.send(seq![request@]),
            final(self).cache == old(self).cache,
            final(self).outbox@ == old(self).outbox@.push(request),
    {
        proof {
            lemma_views_push(self.outbox@, request);
        }
        self.outbox.push(request);
        proof {
            assert(self@.outbox =~= old(self)@.outbox + seq![request@]);
        }
    }

    /// Makes the default frame buffer the output target.
    fn bind_frame(&mut self, frame: &Option<Frame>)
        requires
            frame is None,
        ensures
            final(self)@ == old(self)@.send(old(self)@.frame_requests()),
            final(self).cache == old(self).cache,
    {
        self.send(Request::CastBindFrameBuffer(self.default_frame_buffer));
    }

    /// Clears the output target.
    ///
    /// Binds the default target and, where `data` gives a colour, clears it
    /// to that colour. Depth and stencil cannot be cleared yet; what `data`
    /// asks for them is left undone (see `ClearData::is_supported`).
    pub fn clear(&mut self, data: ClearData, frame: Option<Frame>)
        requires
            old(self)@.pending is Idle,
            frame is None,
        ensures
            final(self)@ == old(self)@.clear(data),
    {
        self.bind_frame(&frame);
        match data.color {
            Some(color) => {
                self.send(Request::CastClear(color));
                proof {
                    assert(self@.outbox =~= old(self)@.clear(data).outbox);
                }
            },
            None => {},
        }
    }

    /// Presents the finished frame.
    pub fn end_frame(&mut self)
        requires
            old(self)@.pending is Idle,
        ensures
            final(self)@ == old(self)@.end_frame(),
    {
        self.send(Request::CastSwapBuffers);
    }

    /// Replaces the contents of `buffer` by `data`. No answer is awaited.
    pub fn update_buffer(&mut self, buffer: BufferHandle, data: Vec<F32Bits>)
        requires
            old(self)@.pending is Idle,
        ensures
            final(self)@ == old(self)@.update_buffer(buffer, data@),
    {
        self.send(Request::CastUpdateBuffer(buffer, data));
    }

    /// Registers `storage` and returns its handle.
    pub fn create_environment(&mut self, storage: Storage) -> (handle: EnvirHandle)
        requires
            old(self)@.pending is Idle,
        ensures
            final(self)@ == old(self)@.create_environment(storage@),
            handle == old(self)@.environments.len(),
    {
        proof {
            lemma_views_push(self.cache.environments@, storage);
        }
        self.cache.environments.push(storage)
    }

    /// Binds block `name` of environment `handle` to `buffer`.
    pub fn set_env_block(&mut self, handle: EnvirHandle, name: String, buffer: BufferHandle)
        requires
            old(self)@.pending is Idle,
            handle < old(self)@.environments.len(),
        ensures
            final(self)@ == old(self)@.set_env_block(handle, name@, buffer),
    {
        self.cache.environments.get_mut(handle).set_block(name, buffer);
        proof {
            lemma_views_update(
                old(self).cache.environments@,
                handle as int,
                self.cache.environments@[handle as int],
            );
        }
    }

    /// Gives uniform `name` of environment `handle` the value `value`.
    pub fn set_env_uniform(&mut self, handle: EnvirHandle, name: String, value: UniformValue)
        requires
            old(self)@.pending is Idle,
            handle < old(self)@.environments.len(),
        ensures
            final(self)@ == old(self)@.set_env_uniform(handle, name@, value),
    {
        self.cache.environments.get_mut(handle).set_uniform(name, value);
        proof {
            lemma_views_update(
                old(self).cache.environments@,
                handle as int,
                self.cache.environments@[handle as int],
            );
        }
    }

    /// Binds texture `name` of environment `handle` to `texture` read
    /// through `sampler`.
    pub fn set_env_texture(
        &mut self,
        handle: EnvirHandle,
        name: String,
        texture: TextureHandle,
        sampler: SamplerHandle,
    )
        requires
            old(self)@.pending is Idle,
            handle < old(self)@.environments.len(),
        ensures
            final(self)@ == old(self)@.set_env_texture(handle, name@, texture, sampler),
    {
        self.cache.environments.get_mut(handle).set_texture(name, texture, sampler);
        proof {
            lemma_views_update(
                old(self).cache.environments@,
                handle as int,
                self.cache.environments@[handle as int],
            );
        }
    }

    /// Starts the creation of a program from the source text of its two
    /// shaders.
    ///
    /// Only the vertex shader is sent for compilation now. The operation
    /// then waits three times, and each reply handed to `resume` releases
    /// the next call: the vertex shader's answer the compilation of the
    /// fragment shader, whose source text is held back until then; the
    /// fragment shader's answer the link. So no call goes out before the
    /// one ahead of it has been answered. The operation ends in
    /// `Outcome::Program`: with the handle of the new program, or, where
    /// the link failed, with handle 0 and no program added.
    pub fn create_program(&mut self, vs_src: Vec<u8>, fs_src: Vec<u8>)
        requires
            old(self)@.pending is Idle,
        ensures
            final(self)@ == old(self)@.create_program(vs_src@, fs_src@),
    {
        self.send(Request::CallNewShader(Stage::Vertex, vs_src));
        self.fragment_source = fs_src;
        self.pending = Pending::VertexShader;
    }

    /// Starts the creation of a mesh of `num_vertices` vertices whose one
    /// attribute, the position, has `count` components every `stride` bytes
    /// of `data`.
    ///
    /// The data is sent off and the operation waits for the buffer. It ends
    /// in `Outcome::Mesh`.
    pub fn create_mesh(&mut self, num_vertices: VertexCount, data: Vec<F32Bits>, count: u8, stride: u8)
        requires
            old(self)@.pending is Idle,
        ensures
            final(self)@ == old(self)@.create_mesh(num_vertices, data@, count, stride),
    {
        self.send(Request::CallNewVertexBuffer(data));
        self.pending = Pending::VertexBuffer(num_vertices, count, stride);
    }

    /// Starts the creation of an index buffer holding `data`. The operation
    /// waits for the buffer and ends in `Outcome::Buffer`.
    pub fn create_index_buffer(&mut self, data: Vec<u16>)
        requires
            old(self)@.pending is Idle,
        ensures
            final(self)@ == old(self)@.create_index_buffer(data@),
    {
        self.send(Request::CallNewIndexBuffer(data));
        self.pending = Pending::IndexBuffer;
    }

    /// Starts the creation of an empty buffer. The operation waits for the
    /// buffer and ends in `Outcome::Buffer`.
    pub fn create_raw_buffer(&mut self)
        requires
            old(self)@.pending is Idle,
        ensures
            final(self)@ == old(self)@.create_raw_buffer(),
    {
        self.send(Request::CallNewRawBuffer);
        self.pending = Pending::RawBuffer;
    }

    /// Carries a draw on from the point where the target is bound and the
    /// shared vertex-array context `array` exists.
    fn finish_draw(&mut self, array: ArrayBuffer, call: DrawCall) -> (outcome: Outcome)
        requires
            old(self)@.knows(call),
        ensures
            (final(self)@, outcome) == old(self)@.finish_draw(array, call),
    {
        let ghost pre = self@;
        let ghost program_before = self.cache.programs@[call.program as int];
        let env = self.cache.environments.get(call.environment);
        let cut = match env.optimize(self.cache.programs.get(call.program)) {
            Err(error) => {
                return Outcome::Skipped(error);
            },
            Ok(cut) => cut,
        };
        let program = self.cache.programs.get_mut(call.program);
        bind_environment(&mut self.outbox, env, &cut, program);
        proof {
            lemma_views_update(
                old(self).cache.programs@,
                call.program as int,
                self.cache.programs@[call.program as int],
            );
        }
        self.send(Request::CastBindArrayBuffer(array));
        let mesh = self.cache.meshes.get(call.mesh);
        let program = self.cache.programs.get(call.program);
        let ghost bound = self@;
        let bound_mesh = bind_mesh(&mut self.outbox, mesh, program);
        proof {
            let before = pre.programs[call.program as int];
            assert(program@.attributes == before.attributes);
            assert(program@.attribute_names() == before.attribute_names());
            lemma_mismatch(mesh@, program@);
        }
        match bound_mesh {
            Err(error) => {
                proof {
                    assert(self@.outbox =~= pre.finish_draw(array, call).0.outbox);
                }
                Outcome::Mismatched(error)
            },
            Ok(()) => {
                bind_slice(&mut self.outbox, call.slice);
                proof {
                    assert(self@.outbox =~= pre.finish_draw(array, call).0.outbox);
                }
                Outcome::Drawn
            },
        }
    }

    /// Draws `slice` of a mesh with a program fed from an environment.
    ///
    /// Binds the default target first. The draw then continues at once
    /// where the shared vertex-array context exists; on the first draw it
    /// asks the executor for one and waits, and continues when the reply is
    /// handed to `resume`. Continuing, it matches the environment against
    /// the program and ends in
    /// - `Outcome::Skipped` where the environment lacks an input, with
    ///   nothing further issued;
    /// - `Outcome::Mismatched` where the mesh lacks an attribute, with the
    ///   environment and the attributes ahead of the lacking one bound but no
    ///   draw issued;
    /// - `Outcome::Drawn` otherwise, the draw request being the last one
    ///   issued.
    pub fn draw(
        &mut self,
        mesh: MeshHandle,
        slice: Slice,
        frame: Option<Frame>,
        program: ProgramHandle,
        environment: EnvirHandle,
    ) -> (progress: Progress)
        requires
            old(self)@.pending is Idle,
            frame is None,
            old(self)@.knows(DrawCall { mesh, slice, program, environment }),
        ensures
            (final(self)@, progress) == old(self)@.draw(
                DrawCall { mesh, slice, program, environment },
            ),
            final(self)@.wf(),
    {
        let call = DrawCall { mesh, slice, program, environment };
        self.bind_frame(&frame);
        match self.common_array_buffer {
            Some(array) => Progress::Finished(self.finish_draw(array, call)),
            None => {
                self.send(Request::CallNewArrayBuffer);
                self.pending = Pending::ArrayBuffer(call);
                Progress::Waiting
            },
        }
    }

    /// Takes the executor's reply to the outstanding call and carries the
    /// waiting operation on.
    ///
    /// Where `reply` has the shape the outstanding call is answered with,
    /// the operation moves on: it ends, with its outcome, or issues its
    /// next call and waits again. Any other reply, and any reply while no
    /// call is outstanding, means that renderer and executor have fallen
    /// out of step; it is reported and changes nothing.
    pub fn resume(&mut self, reply: Reply) -> (result: Result<Progress, ProtocolError>)
        requires
            old(self)@.wf(),
        ensures
            (final(self)@, result) == old(self)@.resume(reply),
            result is Ok <==> old(self)@.pending.spec_expects() == Some(reply.spec_kind()),
            final(self)@.wf(),
    {
        let unexpected = ProtocolError { expected: self.pending.expects(), received: reply.kind() };
        match self.pending {
            Pending::Idle => Err(unexpected),
            Pending::ArrayBuffer(call) => match reply {
                Reply::ReplyNewArrayBuffer(array) => {
                    self.common_array_buffer = Some(array);
                    self.pending = Pending::Idle;
                    Ok(Progress::Finished(self.finish_draw(array, call)))
                },
                _ => Err(unexpected),
            },
            Pending::VertexShader => match reply {
                Reply::ReplyNewShader(answer) => {
                    let vertex = match answer {
                        Ok(name) => name,
                        Err(_) => 0,
                    };
                    let mut source: Vec<u8> = Vec::new();
                    core::mem::swap(&mut self.fragment_source, &mut source);
                    self.send(Request::CallNewShader(Stage::Fragment, source));
                    self.pending = Pending::FragmentShader(vertex);
                    Ok(Progress::Waiting)
                },
                _ => Err(unexpected),
            },
            Pending::FragmentShader(vertex) => match reply {
                Reply::ReplyNewShader(answer) => {
                    let fragment = match answer {
                        Ok(name) => name,
                        Err(_) => 0,
                    };
                    let mut shaders: Vec<u32> = Vec::new();
                    shaders.push(vertex);
                    shaders.push(fragment);
                    assert(shaders@ =~= seq![vertex, fragment]);
                    self.send(Request::CallNewProgram(shaders));
                    self.pending = Pending::Program;
                    Ok(Progress::Waiting)
                },
                _ => Err(unexpected),
            },
            Pending::Program => match reply {
                Reply::ReplyNewProgram(Ok(program)) => {
                    proof {
                        lemma_views_push(self.cache.programs@, program);
                    }
                    let handle = self.cache.programs.push(program);
                    self.pending = Pending::Idle;
                    Ok(Progress::Finished(Outcome::Program(handle)))
                },
                Reply::ReplyNewProgram(Err(_)) => {
                    self.pending = Pending::Idle;
                    Ok(Progress::Finished(Outcome::Program(0)))
                },
                _ => Err(unexpected),
            },
            Pending::VertexBuffer(num_vertices, count, stride) => match reply {
                Reply::ReplyNewBuffer(buffer) => {
                    let mut mesh = Mesh::new(num_vertices);
                    mesh.attributes.push(
                        Attribute {
                            buffer,
                            size: count,
                            offset: 0,
                            stride,
                            is_normalized: false,
                            is_interpolated: false,
                            name: "a_Pos".to_owned(),
                        },
                    );
                    proof {
                        assert(mesh@.attributes =~= position_mesh(
                            num_vertices,
                            buffer,
                            count,
                            stride,
                        ).attributes);
                        lemma_views_push(self.cache.meshes@, mesh);
                    }
                    let handle = self.cache.meshes.push(mesh);
                    self.pending = Pending::Idle;
                    Ok(Progress::Finished(Outcome::Mesh(handle)))
                },
                _ => Err(unexpected),
            },
            Pending::IndexBuffer => match reply {
                Reply::ReplyNewBuffer(buffer) => {
                    self.pending = Pending::Idle;
                    Ok(Progress::Finished(Outcome::Buffer(buffer)))
                },
                _ => Err(unexpected),
            },
            Pending::RawBuffer => match reply {
                Reply::ReplyNewBuffer(buffer) => {
                    self.pending = Pending::Idle;
                    Ok(Progress::Finished(Outcome::Buffer(buffer)))
                },
                _ => Err(unexpected),
            },
        }
    }
}

} // verus!
