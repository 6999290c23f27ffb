//! What holds of the renderer across operations.
//!
//! The contracts of the operations say what each one does. The laws here
//! say what follows for whole draws and whole conversations with the
//! executor; each is proved from the state machine the operations compute.

use crate::binding::{
    attribute_requests, block_binding, block_requests, environment_requests, first_lacking,
    lemma_mismatch, lemma_source_of, mismatch, program_after, slice_requests, supplies,
    texture_requests, uniform_requests,
};
use crate::envir::{
    covers, declared_names, first_unanswered, has_all, lemma_covers, lemma_first_missing,
    resolved, unanswered, OptimizationError, StorageView, VarCategory,
};
use crate::mesh::{MeshView, Slice, VertexCount};
use crate::model::{shader_name, DrawCall, Outcome, Pending, Progress, RendererView};
use crate::protocol::{ArrayBuffer, ProtocolError, Reply, RequestView};
use crate::shade::{
    BufferHandle, F32Bits, ProgramMeta, ProgramView, ShaderName, Stage, TextureBinding,
    UniformValue,
};
use vstd::prelude::*;

verus! {

/// The names that `env` holds in one category.
pub open spec fn held_names(env: StorageView, category: VarCategory) -> Set<Seq<char>> {
    match category {
        VarCategory::Block => env.blocks.dom(),
        VarCategory::Uniform => env.uniforms.dom(),
        VarCategory::Texture => env.textures.dom(),
    }
}

/// The requests that `after` holds beyond those of `before`.
pub open spec fn issued(before: RendererView, after: RendererView) -> Seq<RequestView> {
    after.outbox.subrange(before.outbox.len() as int, after.outbox.len() as int)
}

/// A request that changes what is bound and neither draws, selects an index
/// buffer nor asks for an answer.
pub open spec fn is_state_change(request: RequestView) -> bool {
    !request.is_draw() && !request.is_call() && !(request is CastBindIndex)
}

/// An environment that lacks a declared input is reported by the first
/// such input: the error's category and name are those of a declaration of
/// the program that the environment does not hold, and every declaration
/// ahead of it, in the order blocks, uniforms, textures, is held.
pub proof fn lemma_unanswered_names_first_gap(env: StorageView, program: ProgramView)
    requires
        !covers(env, program),
    ensures
        unanswered(env, program) matches Some(OptimizationError::MissingVariable(category, name))
            && first_unanswered(env, program) matches Some((c, i)) && {
            let declared = declared_names(program, category);
            &&& c == category
            &&& 0 <= i < declared.len()
            &&& declared[i] == name@
            &&& !held_names(env, category).contains(name@)
            &&& forall|j: int| 0 <= j < i ==> held_names(env, category).contains(#[trigger] declared[j])
            &&& category != VarCategory::Block ==> has_all(env.blocks, program.block_names())
            &&& category == VarCategory::Texture ==> has_all(
                env.uniforms,
                program.uniform_names(),
            )
        },
{
    lemma_covers(env, program);
    lemma_first_missing(env.blocks, program.block_names());
    lemma_first_missing(env.uniforms, program.uniform_names());
    lemma_first_missing(env.textures, program.texture_names());
}

/// How a draw ends whose environment does not cover its program.
pub open spec fn skipped(pre: RendererView, call: DrawCall) -> Option<Progress> {
    match unanswered(
        pre.environments[call.environment as int],
        pre.programs[call.program as int],
    ) {
        Some(error) => Some(Progress::Finished(Outcome::Skipped(error))),
        None => None,
    }
}

/// A draw with an environment that does not cover the program issues no
/// draw request: beyond binding the target, and asking for the shared
/// vertex-array context where there is none yet, it issues nothing, it
/// leaves every resource as it was, and where it ends it ends skipped, with
/// the error that names the gap.
pub proof fn lemma_uncovered_draw_draws_nothing(pre: RendererView, call: DrawCall)
    requires
        pre.knows(call),
        !covers(pre.environments[call.environment as int], pre.programs[call.program as int]),
    ensures
        ({
            let (post, progress) = pre.draw(call);
            &&& forall|k: int| 0 <= k < issued(pre, post).len() ==> !(#[trigger] issued(pre, post)[k]).is_draw()
            &&& post.meshes == pre.meshes
            &&& post.programs == pre.programs
            &&& post.environments == pre.environments
            &&& pre.array_buffer is Some ==> {
                &&& issued(pre, post) == pre.frame_requests()
                &&& Some(progress) == skipped(pre, call)
            }
            &&& pre.array_buffer is None ==> {
                &&& issued(pre, post) == pre.frame_requests().push(RequestView::CallNewArrayBuffer)
                &&& progress == Progress::Waiting
            }
        }),
{
    let env = pre.environments[call.environment as int];
    let program = pre.programs[call.program as int];
    lemma_covers(env, program);
    let (post, progress) = pre.draw(call);
    if pre.array_buffer is Some {
        assert(issued(pre, post) =~= pre.frame_requests());
    } else {
        assert(issued(pre, post) =~= pre.frame_requests().push(RequestView::CallNewArrayBuffer));
    }
}

/// A draw that waited for the shared vertex-array context, and whose
/// environment does not cover its program, issues nothing at all once the
/// context arrives, and ends skipped.
pub proof fn lemma_uncovered_draw_resumes_to_nothing(
    pre: RendererView,
    call: DrawCall,
    array: ArrayBuffer,
)
    requires
        pre.pending == Pending::ArrayBuffer(call),
        pre.wf(),
        !covers(pre.environments[call.environment as int], pre.programs[call.program as int]),
    ensures
        ({
            let (post, result) = pre.resume(Reply::ReplyNewArrayBuffer(array));
            &&& post.outbox == pre.outbox
            &&& post.meshes == pre.meshes
            &&& post.programs == pre.programs
            &&& post.environments == pre.environments
            &&& post.pending is Idle
            &&& post.array_buffer == Some(array)
            &&& result is Ok
            &&& Some(result->Ok_0) == skipped(pre, call)
        }),
{
    let env = pre.environments[call.environment as int];
    let program = pre.programs[call.program as int];
    lemma_covers(env, program);
}

/// Binding a mesh that supplies the program issues one request per declared
/// attribute, in declaration order: the `i`-th carries the slot the program
/// declares for its `i`-th attribute and the buffer, component count, offset
/// and stride of a mesh attribute of the same name.
pub proof fn lemma_supplied_mesh_binds_every_attribute(mesh: MeshView, program: ProgramView)
    requires
        supplies(mesh, program),
    ensures
        mismatch(mesh, program) is None,
        attribute_requests(mesh, program).len() == program.attributes.len(),
        forall|i: int|
            0 <= i < program.attributes.len() ==> {
                let wanted = program.attributes[i];
                let k = mesh.source_of(wanted.name@)->0;
                &&& mesh.source_of(wanted.name@) is Some
                &&& 0 <= k < mesh.attributes.len()
                &&& mesh.attributes[k].name == wanted.name@
                &&& #[trigger] attribute_requests(mesh, program)[i]
                    == RequestView::CastBindAttribute(
                    wanted.slot,
                    mesh.attributes[k].buffer,
                    mesh.attributes[k].size as u32,
                    mesh.attributes[k].offset,
                    mesh.attributes[k].stride as u32,
                )
            },
{
    lemma_mismatch(mesh, program);
    assert forall|i: int| 0 <= i < program.attributes.len() implies {
        let wanted = program.attributes[i];
        let k = mesh.source_of(wanted.name@)->0;
        &&& mesh.source_of(wanted.name@) is Some
        &&& 0 <= k < mesh.attributes.len()
        &&& mesh.attributes[k].name == wanted.name@
        &&& #[trigger] attribute_requests(mesh, program)[i] == RequestView::CastBindAttribute(
            wanted.slot,
            mesh.attributes[k].buffer,
            mesh.attributes[k].size as u32,
            mesh.attributes[k].offset,
            mesh.attributes[k].stride as u32,
        )
    } by {
        lemma_source_of(mesh, program.attributes[i].name@);
        assert(mesh.attribute_names().contains(program.attributes[i].name@));
    }
}

/// Binding a mesh that does not supply the program fails, and issues
/// requests for the attributes ahead of the first lacking one only.
pub proof fn lemma_lacking_mesh_binds_a_prefix(mesh: MeshView, program: ProgramView)
    requires
        !supplies(mesh, program),
    ensures
        mismatch(mesh, program) is Some,
        first_lacking(mesh, program) is Some,
        attribute_requests(mesh, program).len() == first_lacking(mesh, program)->0,
        attribute_requests(mesh, program).len() < program.attributes.len(),
{
    lemma_mismatch(mesh, program);
}

/// A vertex range is drawn by exactly one request, the draw of that range;
/// an index range by exactly two, the selection of its index buffer
/// followed at once by the indexed draw of that range.
pub proof fn lemma_slice_requests(slice: Slice)
    ensures
        slice matches Slice::VertexSlice(start, end) ==> slice_requests(slice)
            == seq![RequestView::CastDraw(start, end)],
        slice matches Slice::IndexSlice(buffer, start, end) ==> slice_requests(slice) == seq![
            RequestView::CastBindIndex(buffer),
            RequestView::CastDrawIndexed(start, end),
        ],
{
}

/// Every request that binds blocks is a state change.
proof fn lemma_block_requests_change_state(program: ProgramView, buffers: Seq<BufferHandle>, n: nat)
    ensures
        forall|k: int|
            0 <= k < block_requests(program, buffers, n).len() ==> is_state_change(
                #[trigger] block_requests(program, buffers, n)[k],
            ),
    decreases n,
{
    if n > 0 {
        lemma_block_requests_change_state(program, buffers, (n - 1) as nat);
        let earlier = block_requests(program, buffers, (n - 1) as nat);
        let all = block_requests(program, buffers, n);
        assert forall|k: int| 0 <= k < all.len() implies is_state_change(#[trigger] all[k]) by {
            if k < earlier.len() {
                assert(all[k] == earlier[k]);
            }
        }
    }
}

/// Every request that binds uniforms is a state change.
proof fn lemma_uniform_requests_change_state(
    program: ProgramView,
    values: Seq<UniformValue>,
    n: nat,
)
    ensures
        forall|k: int|
            0 <= k < uniform_requests(program, values, n).len() ==> is_state_change(
                #[trigger] uniform_requests(program, values, n)[k],
            ),
    decreases n,
{
    if n > 0 {
        lemma_uniform_requests_change_state(program, values, (n - 1) as nat);
        let earlier = uniform_requests(program, values, (n - 1) as nat);
        let all = uniform_requests(program, values, n);
        assert forall|k: int| 0 <= k < all.len() implies is_state_change(#[trigger] all[k]) by {
            if k < earlier.len() {
                assert(all[k] == earlier[k]);
            }
        }
    }
}

/// Every request that binds textures is a state change.
proof fn lemma_texture_requests_change_state(
    program: ProgramView,
    bindings: Seq<TextureBinding>,
    n: nat,
)
    ensures
        forall|k: int|
            0 <= k < texture_requests(program, bindings, n).len() ==> is_state_change(
                #[trigger] texture_requests(program, bindings, n)[k],
            ),
    decreases n,
{
    if n > 0 {
        lemma_texture_requests_change_state(program, bindings, (n - 1) as nat);
        let earlier = texture_requests(program, bindings, (n - 1) as nat);
        let all = texture_requests(program, bindings, n);
        assert forall|k: int| 0 <= k < all.len() implies is_state_change(#[trigger] all[k]) by {
            if k < earlier.len() {
                assert(all[k] == earlier[k]);
            }
        }
    }
}

/// Binding an environment and binding a mesh only change state: neither
/// draws, selects an index buffer or asks for an answer.
pub proof fn lemma_binding_changes_state_only(
    program: ProgramView,
    buffers: Seq<BufferHandle>,
    values: Seq<UniformValue>,
    bindings: Seq<TextureBinding>,
    mesh: MeshView,
)
    ensures
        forall|k: int|
            0 <= k < environment_requests(program, buffers, values, bindings).len()
                ==> is_state_change(
                #[trigger] environment_requests(program, buffers, values, bindings)[k],
            ),
        forall|k: int|
            0 <= k < attribute_requests(mesh, program).len() ==> is_state_change(
                #[trigger] attribute_requests(mesh, program)[k],
            ),
{
    lemma_block_requests_change_state(program, buffers, program.blocks.len());
    lemma_uniform_requests_change_state(program, values, program.uniforms.len());
    lemma_texture_requests_change_state(program, bindings, program.textures.len());
}

/// A draw that is carried out issues state changes and then the requests
/// of its slice, which come last: for a vertex range the one draw request,
/// for an index range the index buffer and the indexed draw. Nothing ahead
/// of them draws or selects an index buffer.
pub proof fn lemma_drawn_ends_in_slice(pre: RendererView, array: ArrayBuffer, call: DrawCall)
    requires
        pre.knows(call),
        pre.finish_draw(array, call).1 == Outcome::Drawn,
    ensures
        ({
            let post = pre.finish_draw(array, call).0;
            let sent = issued(pre, post);
            let tail = slice_requests(call.slice);
            &&& sent.len() >= tail.len()
            &&& sent.subrange(sent.len() - tail.len(), sent.len() as int) == tail
            &&& forall|k: int| 0 <= k < sent.len() - tail.len() ==> is_state_change(#[trigger] sent[k])
        }),
{
    let program = pre.programs[call.program as int];
    let env = pre.environments[call.environment as int];
    let mesh = pre.meshes[call.mesh as int];
    let buffers = resolved(env.blocks, program.block_names());
    let values = resolved(env.uniforms, program.uniform_names());
    let bindings = resolved(env.textures, program.texture_names());
    lemma_binding_changes_state_only(program, buffers, values, bindings, mesh);
    let post = pre.finish_draw(array, call).0;
    let sent = issued(pre, post);
    let tail = slice_requests(call.slice);
    let head = environment_requests(program, buffers, values, bindings)
        + seq![RequestView::CastBindArrayBuffer(array)] + attribute_requests(mesh, program);
    assert(sent =~= head + tail);
    assert(sent.subrange(sent.len() - tail.len(), sent.len() as int) =~= tail);
    assert forall|k: int| 0 <= k < sent.len() - tail.len() implies is_state_change(
        #[trigger] sent[k],
    ) by {
        assert(sent[k] == head[k]);
        let bound = environment_requests(program, buffers, values, bindings);
        if k < bound.len() {
            assert(head[k] == bound[k]);
        } else if k == bound.len() {
        } else {
            assert(head[k] == attribute_requests(mesh, program)[k - bound.len() - 1]);
        }
    }
}

/// A draw that is not carried out issues no draw request and selects no
/// index buffer.
pub proof fn lemma_undrawn_issues_state_changes_only(
    pre: RendererView,
    array: ArrayBuffer,
    call: DrawCall,
)
    requires
        pre.knows(call),
        pre.finish_draw(array, call).1 != Outcome::Drawn,
    ensures
        ({
            let sent = issued(pre, pre.finish_draw(array, call).0);
            forall|k: int| 0 <= k < sent.len() ==> is_state_change(#[trigger] sent[k])
        }),
{
    let program = pre.programs[call.program as int];
    let env = pre.environments[call.environment as int];
    let mesh = pre.meshes[call.mesh as int];
    let buffers = resolved(env.blocks, program.block_names());
    let values = resolved(env.uniforms, program.uniform_names());
    let bindings = resolved(env.textures, program.texture_names());
    lemma_binding_changes_state_only(program, buffers, values, bindings, mesh);
    let post = pre.finish_draw(array, call).0;
    let sent = issued(pre, post);
    if unanswered(env, program) is Some {
        assert(sent =~= Seq::empty());
    } else {
        let head = environment_requests(program, buffers, values, bindings)
            + seq![RequestView::CastBindArrayBuffer(array)] + attribute_requests(mesh, program);
        assert(sent =~= head);
        assert forall|k: int| 0 <= k < sent.len() implies is_state_change(#[trigger] sent[k]) by {
            let bound = environment_requests(program, buffers, values, bindings);
            if k < bound.len() {
                assert(head[k] == bound[k]);
            } else if k == bound.len() {
            } else {
                assert(head[k] == attribute_requests(mesh, program)[k - bound.len() - 1]);
            }
        }
    }
}

/// Creating a program whose link fails ends in handle 0 and leaves the
/// renderer as it was before, but for the requests it issued: no program is
/// added, whatever the two compilations answered, and no source text stays
/// held back.
pub proof fn lemma_failed_link_adds_no_program(
    pre: RendererView,
    vs_src: Seq<u8>,
    fs_src: Seq<u8>,
    vertex: Result<ShaderName, ()>,
    fragment: Result<ShaderName, ()>,
)
    requires
        pre.pending is Idle,
    ensures
        ({
            let started = pre.create_program(vs_src, fs_src);
            let (compiled, first) = started.resume(Reply::ReplyNewShader(vertex));
            let (linking, second) = compiled.resume(Reply::ReplyNewShader(fragment));
            let (post, last) = linking.resume(Reply::ReplyNewProgram(Err(())));
            &&& first == Ok::<Progress, ProtocolError>(Progress::Waiting)
            &&& second == Ok::<Progress, ProtocolError>(Progress::Waiting)
            &&& last == Ok::<Progress, ProtocolError>(
                Progress::Finished(Outcome::Program(0)),
            )
            &&& post.programs == pre.programs
            &&& post.meshes == pre.meshes
            &&& post.environments == pre.environments
            &&& post.array_buffer == pre.array_buffer
            &&& post.fragment_source == Seq::<u8>::empty()
            &&& post.pending is Idle
        }),
{
}

/// Creating a program whose link succeeds adds the linked program behind
/// the handle it ends in, which is the number of programs there were.
pub proof fn lemma_link_adds_one_program(
    pre: RendererView,
    vs_src: Seq<u8>,
    fs_src: Seq<u8>,
    vertex: Result<ShaderName, ()>,
    fragment: Result<ShaderName, ()>,
    program: ProgramMeta,
)
    requires
        pre.pending is Idle,
        pre.programs.len() <= usize::MAX,
    ensures
        ({
            let started = pre.create_program(vs_src, fs_src);
            let (compiled, first) = started.resume(Reply::ReplyNewShader(vertex));
            let (linking, second) = compiled.resume(Reply::ReplyNewShader(fragment));
            let (post, last) = linking.resume(Reply::ReplyNewProgram(Ok(program)));
            &&& last == Ok::<Progress, ProtocolError>(
                Progress::Finished(Outcome::Program(pre.programs.len() as usize)),
            )
            &&& post.programs == pre.programs.push(program@)
            &&& post.pending is Idle
        }),
{
}

/// Binding the same values a second time issues nothing but the request
/// that makes the program current.
pub proof fn lemma_rebinding_issues_program_only(
    program: ProgramView,
    buffers: Seq<BufferHandle>,
    values: Seq<UniformValue>,
    bindings: Seq<TextureBinding>,
)
    ensures
        environment_requests(
            program_after(program, buffers, values, bindings),
            buffers,
            values,
            bindings,
        ) == seq![RequestView::CastBindProgram(program.name)],
        program_after(program_after(program, buffers, values, bindings), buffers, values, bindings)
            == program_after(program, buffers, values, bindings),
{
    let after = program_after(program, buffers, values, bindings);
    lemma_bound_blocks_need_nothing(after, buffers, after.blocks.len());
    lemma_bound_uniforms_need_nothing(after, values, after.uniforms.len());
    lemma_bound_textures_need_nothing(after, bindings, after.textures.len());
    assert(environment_requests(after, buffers, values, bindings) =~= seq![
        RequestView::CastBindProgram(program.name),
    ]);
    let again = program_after(after, buffers, values, bindings);
    assert(again.blocks =~= after.blocks);
    assert(again.uniforms =~= after.uniforms);
    assert(again.textures =~= after.textures);
}

/// Blocks that remember the wanted bindings get no request.
proof fn lemma_bound_blocks_need_nothing(program: ProgramView, buffers: Seq<BufferHandle>, n: nat)
    requires
        n <= program.blocks.len(),
        forall|i: int|
            0 <= i < n ==> (#[trigger] program.blocks[i]).active == Some(
                block_binding(i, buffers[i]),
            ),
    ensures
        block_requests(program, buffers, n) == Seq::<RequestView>::empty(),
    decreases n,
{
    if n > 0 {
        lemma_bound_blocks_need_nothing(program, buffers, (n - 1) as nat);
        assert(program.blocks[n - 1].active == Some(block_binding(n - 1, buffers[n - 1])));
    }
}

/// Uniforms that hold the wanted values get no request.
proof fn lemma_bound_uniforms_need_nothing(program: ProgramView, values: Seq<UniformValue>, n: nat)
    requires
        n <= program.uniforms.len(),
        forall|i: int| 0 <= i < n ==> (#[trigger] program.uniforms[i]).active_value == values[i],
    ensures
        uniform_requests(program, values, n) == Seq::<RequestView>::empty(),
    decreases n,
{
    if n > 0 {
        lemma_bound_uniforms_need_nothing(program, values, (n - 1) as nat);
        assert(program.uniforms[n - 1].active_value == values[n - 1]);
    }
}

/// Textures that remember the wanted bindings get no request.
proof fn lemma_bound_textures_need_nothing(
    program: ProgramView,
    bindings: Seq<TextureBinding>,
    n: nat,
)
    requires
        n <= program.textures.len(),
        forall|i: int| 0 <= i < n ==> (#[trigger] program.textures[i]).active == Some(bindings[i]),
    ensures
        texture_requests(program, bindings, n) == Seq::<RequestView>::empty(),
    decreases n,
{
    if n > 0 {
        lemma_bound_textures_need_nothing(program, bindings, (n - 1) as nat);
        assert(program.textures[n - 1].active == Some(bindings[n - 1]));
    }
}

/// Two descriptions of one program: they agree on everything but what the
/// inputs remember of their last binding.
pub open spec fn same_declarations(a: ProgramView, b: ProgramView) -> bool {
    &&& a.name == b.name
    &&& a.attributes == b.attributes
    &&& a.blocks.len() == b.blocks.len()
    &&& a.uniforms.len() == b.uniforms.len()
    &&& a.textures.len() == b.textures.len()
    &&& forall|i: int| 0 <= i < a.blocks.len() ==> (#[trigger] a.blocks[i]).name == b.blocks[i].name
    &&& forall|i: int|
        0 <= i < a.uniforms.len() ==> (#[trigger] a.uniforms[i]).name == b.uniforms[i].name
            && a.uniforms[i].location == b.uniforms[i].location
    &&& forall|i: int|
        0 <= i < a.textures.len() ==> (#[trigger] a.textures[i]).name == b.textures[i].name
            && a.textures[i].slot == b.textures[i].slot
}

/// `after` still has every resource of `before` behind the handle it had:
/// meshes and environments unchanged, programs with their declarations
/// unchanged. Tables only grow.
pub open spec fn keeps_handles(before: RendererView, after: RendererView) -> bool {
    &&& before.meshes.len() <= after.meshes.len()
    &&& before.programs.len() <= after.programs.len()
    &&& before.environments.len() <= after.environments.len()
    &&& forall|h: int| 0 <= h < before.meshes.len() ==> #[trigger] after.meshes[h] == before.meshes[h]
    &&& forall|h: int|
        0 <= h < before.programs.len() ==> same_declarations(
            #[trigger] after.programs[h],
            before.programs[h],
        )
    &&& forall|h: int|
        0 <= h < before.environments.len() ==> #[trigger] after.environments[h]
            == before.environments[h]
}

/// A draw keeps every handle valid, keeps the renderer well formed and
/// never takes a request back.
pub proof fn lemma_draw_keeps_handles(pre: RendererView, call: DrawCall)
    requires
        pre.knows(call),
        pre.pending is Idle,
    ensures
        keeps_handles(pre, pre.draw(call).0),
        pre.draw(call).0.wf(),
        pre.outbox.is_prefix_of(pre.draw(call).0.outbox),
        pre.draw(call).1 is Waiting <==> !(pre.draw(call).0.pending is Idle),
{
}

/// Taking a reply keeps every handle valid, keeps the renderer well formed
/// and never takes a request back; the renderer is idle afterwards exactly
/// when the operation has finished or there was none.
pub proof fn lemma_resume_keeps_handles(pre: RendererView, reply: Reply)
    requires
        pre.wf(),
    ensures
        keeps_handles(pre, pre.resume(reply).0),
        pre.resume(reply).0.wf(),
        pre.outbox.is_prefix_of(pre.resume(reply).0.outbox),
        pre.resume(reply).1 is Err ==> pre.resume(reply).0 == pre,
        pre.resume(reply).1 is Err <==> pre.pending.spec_expects() != Some(reply.spec_kind()),
        pre.resume(reply).1 matches Ok(progress) ==> (progress is Waiting <==> !(pre.resume(
            reply,
        ).0.pending is Idle)),
{
}

/// `requests` holds no call, except that where `waiting` its last request
/// is one.
pub open spec fn calls_last_only(requests: Seq<RequestView>, waiting: bool) -> bool {
    if waiting {
        &&& requests.len() > 0
        &&& requests.last().is_call()
        &&& forall|k: int| 0 <= k < requests.len() - 1 ==> !(#[trigger] requests[k]).is_call()
    } else {
        forall|k: int| 0 <= k < requests.len() ==> !(#[trigger] requests[k]).is_call()
    }
}

/// The calls of a program go out one by one, each only when the one ahead
/// of it has been answered: creating the program issues the compilation of
/// the vertex shader and nothing else; the answer to it releases the
/// compilation of the fragment shader, with the source text that was held
/// back; the answer to that releases the link of the two shaders, vertex
/// shader first; the answer to the link releases nothing.
pub proof fn lemma_program_calls_go_out_one_by_one(
    pre: RendererView,
    vs_src: Seq<u8>,
    fs_src: Seq<u8>,
    vertex: Result<ShaderName, ()>,
    fragment: Result<ShaderName, ()>,
    link: Result<ProgramMeta, ()>,
)
    requires
        pre.pending is Idle,
    ensures
        ({
            let started = pre.create_program(vs_src, fs_src);
            let compiled = started.resume(Reply::ReplyNewShader(vertex)).0;
            let linking = compiled.resume(Reply::ReplyNewShader(fragment)).0;
            let post = linking.resume(Reply::ReplyNewProgram(link)).0;
            &&& issued(pre, started) == seq![RequestView::CallNewShader(Stage::Vertex, vs_src)]
            &&& started.pending == Pending::VertexShader
            &&& issued(started, compiled) == seq![
                RequestView::CallNewShader(Stage::Fragment, fs_src),
            ]
            &&& compiled.pending == Pending::FragmentShader(shader_name(vertex))
            &&& issued(compiled, linking) == seq![
                RequestView::CallNewProgram(seq![shader_name(vertex), shader_name(fragment)]),
            ]
            &&& linking.pending == Pending::Program
            &&& issued(linking, post) == Seq::<RequestView>::empty()
            &&& post.pending is Idle
        }),
{
    let started = pre.create_program(vs_src, fs_src);
    let compiled = started.resume(Reply::ReplyNewShader(vertex)).0;
    let linking = compiled.resume(Reply::ReplyNewShader(fragment)).0;
    let post = linking.resume(Reply::ReplyNewProgram(link)).0;
    assert(issued(pre, started) =~= seq![RequestView::CallNewShader(Stage::Vertex, vs_src)]);
    assert(issued(started, compiled) =~= seq![
        RequestView::CallNewShader(Stage::Fragment, fs_src),
    ]);
    assert(issued(compiled, linking) =~= seq![
        RequestView::CallNewProgram(seq![shader_name(vertex), shader_name(fragment)]),
    ]);
    assert(issued(linking, post) =~= Seq::<RequestView>::empty());
}

/// An operation that starts from idle issues exactly one call, and issues
/// it last: every creation does, and so does a draw that has to wait; a
/// draw that ends at once issues no call.
pub proof fn lemma_start_issues_one_call(
    pre: RendererView,
    call: DrawCall,
    vs_src: Seq<u8>,
    fs_src: Seq<u8>,
    num_vertices: VertexCount,
    data: Seq<F32Bits>,
    count: u8,
    stride: u8,
    indices: Seq<u16>,
)
    requires
        pre.pending is Idle,
        pre.knows(call),
    ensures
        calls_last_only(issued(pre, pre.create_program(vs_src, fs_src)), true),
        calls_last_only(issued(pre, pre.create_mesh(num_vertices, data, count, stride)), true),
        calls_last_only(issued(pre, pre.create_index_buffer(indices)), true),
        calls_last_only(issued(pre, pre.create_raw_buffer()), true),
        calls_last_only(issued(pre, pre.draw(call).0), pre.draw(call).1 is Waiting),
{
    assert(issued(pre, pre.create_program(vs_src, fs_src)) =~= seq![
        RequestView::CallNewShader(Stage::Vertex, vs_src),
    ]);
    assert(issued(pre, pre.create_mesh(num_vertices, data, count, stride)) =~= seq![
        RequestView::CallNewVertexBuffer(data),
    ]);
    assert(issued(pre, pre.create_index_buffer(indices)) =~= seq![
        RequestView::CallNewIndexBuffer(indices),
    ]);
    assert(issued(pre, pre.create_raw_buffer()) =~= seq![RequestView::CallNewRawBuffer]);
    let targeted = pre.send(pre.frame_requests());
    let post = pre.draw(call).0;
    let sent = issued(pre, post);
    match pre.array_buffer {
        Some(array) => {
            lemma_finish_draw_issues_no_call(targeted, array, call);
            let rest = issued(targeted, post);
            assert(sent =~= pre.frame_requests() + rest);
            assert forall|k: int| 0 <= k < sent.len() implies !(#[trigger] sent[k]).is_call() by {
                if k >= 1 {
                    assert(sent[k] == rest[k - 1]);
                }
            }
        },
        None => {
            assert(sent =~= pre.frame_requests().push(RequestView::CallNewArrayBuffer));
        },
    }
}

/// A reply releases at most one call: where the operation goes on waiting,
/// taking the reply issues exactly one call, and issues it last; where the
/// operation ends, no call; where the reply is refused, nothing at all. With
/// `lemma_start_issues_one_call` this keeps at most one call outstanding:
/// a call goes out only from idle or in exchange for a reply.
pub proof fn lemma_reply_releases_one_call(pre: RendererView, reply: Reply)
    requires
        pre.wf(),
    ensures
        ({
            let (post, result) = pre.resume(reply);
            &&& result matches Ok(progress) ==> calls_last_only(
                issued(pre, post),
                progress is Waiting,
            )
            &&& result is Err ==> issued(pre, post) == Seq::<RequestView>::empty()
        }),
{
    let (post, result) = pre.resume(reply);
    let sent = issued(pre, post);
    match (pre.pending, reply) {
        (Pending::ArrayBuffer(call), Reply::ReplyNewArrayBuffer(array)) => {
            let ready = RendererView {
                array_buffer: Some(array),
                pending: Pending::Idle,
                ..pre
            };
            lemma_finish_draw_issues_no_call(ready, array, call);
            assert(sent =~= issued(ready, post));
        },
        (Pending::VertexShader, Reply::ReplyNewShader(answer)) => {
            assert(sent =~= seq![
                RequestView::CallNewShader(Stage::Fragment, pre.fragment_source),
            ]);
        },
        (Pending::FragmentShader(vertex), Reply::ReplyNewShader(answer)) => {
            assert(sent =~= seq![
                RequestView::CallNewProgram(seq![vertex, shader_name(answer)]),
            ]);
        },
        _ => {
            assert(sent =~= Seq::<RequestView>::empty());
        },
    }
}

/// Carrying a draw on issues no call.
proof fn lemma_finish_draw_issues_no_call(pre: RendererView, array: ArrayBuffer, call: DrawCall)
    requires
        pre.knows(call),
    ensures
        ({
            let sent = issued(pre, pre.finish_draw(array, call).0);
            forall|k: int| 0 <= k < sent.len() ==> !(#[trigger] sent[k]).is_call()
        }),
{
    let sent = issued(pre, pre.finish_draw(array, call).0);
    if pre.finish_draw(array, call).1 == Outcome::Drawn {
        lemma_drawn_ends_in_slice(pre, array, call);
        let tail = slice_requests(call.slice);
        assert forall|k: int| 0 <= k < sent.len() implies !(#[trigger] sent[k]).is_call() by {
            if k >= sent.len() - tail.len() {
                let at = k - (sent.len() - tail.len());
                assert(sent.subrange(sent.len() - tail.len(), sent.len() as int)[at] == sent[k]);
                assert(sent[k] == tail[at]);
            } else {
                assert(is_state_change(sent[k]));
            }
        }
    } else {
        lemma_undrawn_issues_state_changes_only(pre, array, call);
        assert forall|k: int| 0 <= k < sent.len() implies !(#[trigger] sent[k]).is_call() by {
            assert(is_state_change(sent[k]));
        }
    }
}

} // verus!
