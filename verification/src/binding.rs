//! The requests that bind a mesh, an environment and a slice for one draw.
//!
//! Each binder appends to a stream of requests. What it appends is fixed by
//! a specification function: `attribute_requests` for a mesh,
//! `environment_requests` for an environment, `slice_requests` for a slice.
//!
//! Binding an environment skips what is bound already. A program remembers,
//! for each of its inputs, the value most recently bound to it; an input
//! whose wanted value is the remembered one gets no request.

use crate::envir::{Shortcut, Storage};
use crate::lift::{lemma_views_push, views};
use crate::mesh::{is_named, Mesh, MeshView, Slice};
use crate::protocol::{Request, RequestView};
use crate::search::{first, is_first, lemma_first_is, lemma_first_none, none};
use crate::shade::{
    BlockBinding, BlockVar, BufferHandle, ProgramMeta, ProgramView, SamplerVar, TextureBinding,
    UniformValue, UniformVar,
};
use vstd::prelude::*;

verus! {

/// A program asks for a vertex attribute that the mesh does not store.
#[derive(Clone, Debug, PartialEq, Eq)]
pub struct AttributeMismatch {
    /// The name of the attribute asked for.
    pub name: String,
}

/// The requests that select and draw `slice`: a plain draw for a vertex
/// range; for an index range, the index buffer first and then the draw.
pub open spec fn slice_requests(slice: Slice) -> Seq<RequestView> {
    match slice {
        Slice::VertexSlice(start, end) => seq![RequestView::CastDraw(start, end)],
        Slice::IndexSlice(buffer, start, end) => seq![
            RequestView::CastBindIndex(buffer),
            RequestView::CastDrawIndexed(start, end),
        ],
    }
}

/// The test "is the name of no attribute of `mesh`".
pub open spec fn lacked_by(mesh: MeshView) -> spec_fn(Seq<char>) -> bool {
    |name: Seq<char>| mesh.source_of(name) is None
}

/// Position of the first attribute `program` declares that `mesh` lacks.
pub open spec fn first_lacking(mesh: MeshView, program: ProgramView) -> Option<int> {
    first(program.attribute_names(), lacked_by(mesh))
}

/// `mesh` stores an attribute under every name that `program` declares one.
pub open spec fn supplies(mesh: MeshView, program: ProgramView) -> bool {
    forall|i: int|
        0 <= i < program.attributes.len() ==> mesh.attribute_names().contains(
            #[trigger] program.attributes[i].name@,
        )
}

/// The mismatch that binding `mesh` for `program` ends in, if it does.
pub open spec fn mismatch(mesh: MeshView, program: ProgramView) -> Option<AttributeMismatch> {
    match first_lacking(mesh, program) {
        Some(i) => Some(AttributeMismatch { name: program.attributes[i].name }),
        None => None,
    }
}

/// How many attributes get bound: all that `program` declares, or those
/// ahead of the first one that `mesh` lacks.
pub open spec fn bound_attributes(mesh: MeshView, program: ProgramView) -> int {
    match first_lacking(mesh, program) {
        Some(i) => i,
        None => program.attributes.len() as int,
    }
}

/// The request that feeds the `i`-th attribute of `program` from the first
/// attribute of `mesh` with the same name.
pub open spec fn attribute_request(mesh: MeshView, program: ProgramView, i: int) -> RequestView {
    let wanted = program.attributes[i];
    let source = mesh.attributes[mesh.source_of(wanted.name@)->0];
    RequestView::CastBindAttribute(
        wanted.slot,
        source.buffer,
        source.size as u32,
        source.offset,
        source.stride as u32,
    )
}

/// The requests that bind `mesh` for `program`: one per declared attribute,
/// in declaration order, up to the first one that `mesh` lacks.
pub open spec fn attribute_requests(mesh: MeshView, program: ProgramView) -> Seq<RequestView> {
    Seq::new(bound_attributes(mesh, program) as nat, |i: int| attribute_request(mesh, program, i))
}

/// The slot and binding point used for the `i`-th block of a program: its
/// position, counted modulo 256.
pub open spec fn block_slot(i: int) -> u8 {
    (i % 256) as u8
}

/// The binding of the `i`-th block of a program to `buffer`.
pub open spec fn block_binding(i: int, buffer: BufferHandle) -> BlockBinding {
    BlockBinding { slot: block_slot(i), buffer }
}

/// The requests for the first `n` blocks of `program`, the `i`-th bound to
/// `buffers[i]`. A block whose most recent binding is the wanted one gets no
/// request.
pub open spec fn block_requests(program: ProgramView, buffers: Seq<BufferHandle>, n: nat) -> Seq<
    RequestView,
>
    decreases n,
{
    if n == 0 {
        Seq::empty()
    } else {
        let i = n - 1;
        let earlier = block_requests(program, buffers, i as nat);
        let binding = block_binding(i, buffers[i]);
        if program.blocks[i].active == Some(binding) {
            earlier
        } else {
            earlier.push(
                RequestView::CastBindUniformBlock(
                    program.name,
                    binding.slot,
                    binding.slot,
                    binding.buffer,
                ),
            )
        }
    }
}

/// The requests for the first `n` loose uniforms of `program`, the `i`-th set
/// to `values[i]`. A uniform that already holds the wanted value gets no
/// request.
pub open spec fn uniform_requests(program: ProgramView, values: Seq<UniformValue>, n: nat) -> Seq<
    RequestView,
>
    decreases n,
{
    if n == 0 {
        Seq::empty()
    } else {
        let i = n - 1;
        let earlier = uniform_requests(program, values, i as nat);
        if program.uniforms[i].active_value == values[i] {
            earlier
        } else {
            earlier.push(RequestView::CastBindUniform(program.uniforms[i].location, values[i]))
        }
    }
}

/// The requests for the first `n` textures of `program`, the `i`-th fed from
/// `bindings[i]` at the slot the program declares for it. A texture whose
/// most recent binding is the wanted one gets no request.
pub open spec fn texture_requests(
    program: ProgramView,
    bindings: Seq<TextureBinding>,
    n: nat,
) -> Seq<RequestView>
    decreases n,
{
    if n == 0 {
        Seq::empty()
    } else {
        let i = n - 1;
        let earlier = texture_requests(program, bindings, i as nat);
        if program.textures[i].active == Some(bindings[i]) {
            earlier
        } else {
            earlier.push(
                RequestView::CastBindTexture(
                    program.textures[i].slot,
                    bindings[i].texture,
                    bindings[i].sampler,
                ),
            )
        }
    }
}

/// The requests that make `program` current and bring its inputs to the
/// given values: the program first, then blocks, uniforms and textures, each
/// list in declaration order and without the inputs that are already there.
pub open spec fn environment_requests(
    program: ProgramView,
    buffers: Seq<BufferHandle>,
    values: Seq<UniformValue>,
    bindings: Seq<TextureBinding>,
) -> Seq<RequestView> {
    seq![RequestView::CastBindProgram(program.name)] + block_requests(
        program,
        buffers,
        program.blocks.len(),
    ) + uniform_requests(program, values, program.uniforms.len()) + texture_requests(
        program,
        bindings,
        program.textures.len(),
    )
}

/// `program` once its inputs were brought to the given values: every block,
/// uniform and texture remembers what it now holds; nothing else changes.
pub open spec fn program_after(
    program: ProgramView,
    buffers: Seq<BufferHandle>,
    values: Seq<UniformValue>,
    bindings: Seq<TextureBinding>,
) -> ProgramView {
    ProgramView {
        name: program.name,
        attributes: program.attributes,
        blocks: Seq::new(
            program.blocks.len(),
            |i: int|
                BlockVar {
                    name: program.blocks[i].name,
                    active: Some(block_binding(i, buffers[i])),
                },
        ),
        uniforms: Seq::new(
            program.uniforms.len(),
            |i: int|
                UniformVar {
                    name: program.uniforms[i].name,
                    location: program.uniforms[i].location,
                    active_value: values[i],
                },
        ),
        textures: Seq::new(
            program.textures.len(),
            |i: int|
                SamplerVar {
                    name: program.textures[i].name,
                    slot: program.textures[i].slot,
                    active: Some(bindings[i]),
                },
        ),
    }
}

/// A mesh lacks a name exactly when none of its attributes carries it; the
/// source found for a name is an attribute that carries it.
pub proof fn lemma_source_of(mesh: MeshView, name: Seq<char>)
    ensures
        mesh.source_of(name) is None <==> !mesh.attribute_names().contains(name),
        mesh.source_of(name) matches Some(k) ==> 0 <= k < mesh.attributes.len()
            && mesh.attributes[k].name == name,
{
    let names = mesh.attribute_names();
    let wanted = is_named(name);
    lemma_first_none(names, wanted);
    if names.contains(name) {
        let k = names.index_of(name);
        assert(wanted(names[k]));
        assert(!none(names, wanted));
    } else {
        assert forall|k: int| 0 <= k < names.len() implies !wanted(#[trigger] names[k]) by {
            if names[k] == name {
                assert(names.contains(name));
            }
        }
        assert(none(names, wanted));
    }
    if mesh.source_of(name) is Some {
        let k = mesh.source_of(name)->0;
        assert(is_first(names, wanted, k));
    }
}

/// Binding ends in no mismatch exactly when the mesh supplies the program;
/// a mismatch names a declared attribute that the mesh lacks, every
/// attribute declared ahead of it being supplied.
pub proof fn lemma_mismatch(mesh: MeshView, program: ProgramView)
    ensures
        mismatch(mesh, program) is None <==> supplies(mesh, program),
        first_lacking(mesh, program) is None <==> supplies(mesh, program),
        first_lacking(mesh, program) matches Some(i) ==> {
            &&& 0 <= i < program.attributes.len()
            &&& !mesh.attribute_names().contains(program.attributes[i].name@)
            &&& forall|j: int|
                0 <= j < i ==> mesh.attribute_names().contains(
                    #[trigger] program.attributes[j].name@,
                )
        },
{
    let names = program.attribute_names();
    let lacking = lacked_by(mesh);
    lemma_first_none(names, lacking);
    assert forall|i: int| 0 <= i < names.len() implies (lacking(#[trigger] names[i])
        <==> !mesh.attribute_names().contains(program.attributes[i].name@)) by {
        lemma_source_of(mesh, names[i]);
    }
    if supplies(mesh, program) {
        assert forall|i: int| 0 <= i < names.len() implies !lacking(#[trigger] names[i]) by {
            assert(mesh.attribute_names().contains(program.attributes[i].name@));
        }
    }
    if none(names, lacking) {
        assert forall|i: int| 0 <= i < program.attributes.len() implies mesh.attribute_names().contains(
            #[trigger] program.attributes[i].name@,
        ) by {
            assert(!lacking(names[i]));
        }
    }
    if first_lacking(mesh, program) is Some {
        let i = first_lacking(mesh, program)->0;
        assert(is_first(names, lacking, i));
        assert forall|j: int| 0 <= j < i implies mesh.attribute_names().contains(
            #[trigger] program.attributes[j].name@,
        ) by {
            assert(!lacking(names[j]));
        }
    }
}

/// Appends the requests that select and draw `slice`.
pub fn bind_slice(out: &mut Vec<Request>, slice: Slice)
    ensures
        views(final(out)@) == views(old(out)@) + slice_requests(slice),
{
    let ghost before = out@;
    match slice {
        Slice::VertexSlice(start, end) => {
            out.push(Request::CastDraw(start, end));
        },
        Slice::IndexSlice(buffer, start, end) => {
            out.push(Request::CastBindIndex(buffer));
            out.push(Request::CastDrawIndexed(start, end));
        },
    }
    assert(views(out@) =~= views(before) + slice_requests(slice));
}

/// Binds the attributes that `program` declares from the attributes of
/// `mesh` with the same names.
///
/// Succeeds exactly when `mesh` stores every attribute that `program`
/// declares. Otherwise the error names the first declared attribute that is
/// lacking; the requests for the attributes ahead of it have been appended
/// all the same.
pub fn bind_mesh(out: &mut Vec<Request>, mesh: &Mesh, program: &ProgramMeta) -> (result: Result<
    (),
    AttributeMismatch,
>)
    ensures
        views(final(out)@) == views(old(out)@) + attribute_requests(mesh@, program@),
        result is Ok <==> supplies(mesh@, program@),
        result matches Err(error) ==> Some(error) == mismatch(mesh@, program@),
{
    let ghost before = views(out@);
    let ghost names = program@.attribute_names();
    let ghost lacking = lacked_by(mesh@);
    let mut i: usize = 0;
    while i < program.attributes.len()
        invariant
            i <= program.attributes@.len(),
            before == views(old(out)@),
            names == program@.attribute_names(),
            lacking == lacked_by(mesh@),
            forall|j: int| 0 <= j < i ==> !lacking(#[trigger] names[j]),
            views(out@) == before + Seq::new(
                i as nat,
                |k: int| attribute_request(mesh@, program@, k),
            ),
        decreases program.attributes@.len() - i,
    {
        let wanted = &program.attributes[i];
        match mesh.find(&wanted.name) {
            Some(k) => {
                let source = &mesh.attributes[k];
                let ghost sent = out@;
                let request = Request::CastBindAttribute(
                    wanted.slot,
                    source.buffer,
                    source.size as u32,
                    source.offset,
                    source.stride as u32,
                );
                out.push(request);
                proof {
                    lemma_views_push(sent, request);
                    assert(request@ == attribute_request(mesh@, program@, i as int));
                    assert(views(out@) =~= before + Seq::new(
                        (i + 1) as nat,
                        |k: int| attribute_request(mesh@, program@, k),
                    ));
                }
            },
            None => {
                proof {
                    assert(lacking(names[i as int]));
                    lemma_first_is(names, lacking, i as int);
                    assert(first_lacking(mesh@, program@) == Some(i as int));
                    lemma_mismatch(mesh@, program@);
                    assert(attribute_requests(mesh@, program@) =~= Seq::new(
                        i as nat,
                        |k: int| attribute_request(mesh@, program@, k),
                    ));
                }
                return Err(AttributeMismatch { name: wanted.name.clone() });
            },
        }
        i += 1;
    }
    proof {
        assert(none(names, lacking));
        lemma_first_none(names, lacking);
        assert(first_lacking(mesh@, program@) is None);
        lemma_mismatch(mesh@, program@);
        assert(attribute_requests(mesh@, program@) =~= Seq::new(
            i as nat,
            |k: int| attribute_request(mesh@, program@, k),
        ));
    }
    Ok(())
}

/// Makes `program` current and brings its inputs to the values that
/// `shortcut` selects in `storage`.
///
/// Appends the request that binds the program, then one request for each
/// block, uniform and texture whose wanted value differs from the one the
/// program remembers for it, and makes the program remember every wanted
/// value.
pub fn bind_environment(
    out: &mut Vec<Request>,
    storage: &Storage,
    shortcut: &Shortcut,
    program: &mut ProgramMeta,
)
    requires
        shortcut.fits(old(program)@),
        storage.admits(*shortcut),
    ensures
        views(final(out)@) == views(old(out)@) + environment_requests(
            old(program)@,
            storage.blocks.values_at(shortcut.blocks@),
            storage.uniforms.values_at(shortcut.uniforms@),
            storage.textures.values_at(shortcut.textures@),
        ),
        final(program)@ == program_after(
            old(program)@,
            storage.blocks.values_at(shortcut.blocks@),
            storage.uniforms.values_at(shortcut.uniforms@),
            storage.textures.values_at(shortcut.textures@),
        ),
{
    let ghost pre = program@;
    let ghost buffers = storage.blocks.values_at(shortcut.blocks@);
    let ghost values = storage.uniforms.values_at(shortcut.uniforms@);
    let ghost bindings = storage.textures.values_at(shortcut.textures@);
    let ghost after = program_after(pre, buffers, values, bindings);
    let ghost before = views(out@);
    let ghost sent = out@;
    out.push(Request::CastBindProgram(program.name));
    proof {
        lemma_views_push(sent, Request::CastBindProgram(program.name));
    }
    let ghost head = before.push(RequestView::CastBindProgram(pre.name));

    let mut i: usize = 0;
    while i < shortcut.blocks.len()
        invariant
            i <= shortcut.blocks@.len(),
            shortcut.blocks@.len() == pre.blocks.len(),
            storage.admits(*shortcut),
            buffers == storage.blocks.values_at(shortcut.blocks@),
            after == program_after(pre, buffers, values, bindings),
            program.name == pre.name,
            program.attributes@ == pre.attributes,
            program.uniforms@ == pre.uniforms,
            program.textures@ == pre.textures,
            program.blocks@.len() == pre.blocks.len(),
            forall|j: int| 0 <= j < i ==> program.blocks@[j] == after.blocks[j],
            forall|j: int| i <= j < pre.blocks.len() ==> program.blocks@[j] == pre.blocks[j],
            views(out@) == head + block_requests(pre, buffers, i as nat),
        decreases shortcut.blocks@.len() - i,
    {
        let buffer = storage.get_block(shortcut.blocks[i]);
        let binding = BlockBinding { slot: (i % 256) as u8, buffer };
        assert(binding == block_binding(i as int, buffers[i as int]));
        if !program.blocks[i].is_bound_to(binding) {
            let ghost sent = out@;
            let request = Request::CastBindUniformBlock(
                program.name,
                binding.slot,
                binding.slot,
                buffer,
            );
            program.blocks[i].active = Some(binding);
            out.push(request);
            proof {
                lemma_views_push(sent, request);
            }
        }
        assert(views(out@) =~= head + block_requests(pre, buffers, (i + 1) as nat));
        i += 1;
    }
    let ghost head = head + block_requests(pre, buffers, pre.blocks.len());

    let mut i: usize = 0;
    while i < shortcut.uniforms.len()
        invariant
            i <= shortcut.uniforms@.len(),
            shortcut.uniforms@.len() == pre.uniforms.len(),
            storage.admits(*shortcut),
            values == storage.uniforms.values_at(shortcut.uniforms@),
            after == program_after(pre, buffers, values, bindings),
            program.name == pre.name,
            program.attributes@ == pre.attributes,
            program.blocks@ =~= after.blocks,
            program.textures@ == pre.textures,
            program.uniforms@.len() == pre.uniforms.len(),
            forall|j: int| 0 <= j < i ==> program.uniforms@[j] == after.uniforms[j],
            forall|j: int| i <= j < pre.uniforms.len() ==> program.uniforms@[j] == pre.uniforms[j],
            views(out@) == head + uniform_requests(pre, values, i as nat),
        decreases shortcut.uniforms@.len() - i,
    {
        let value = storage.get_uniform(shortcut.uniforms[i]);
        assert(value == values[i as int]);
        if !program.uniforms[i].active_value.same(&value) {
            let ghost sent = out@;
            let request = Request::CastBindUniform(program.uniforms[i].location, value);
            program.uniforms[i].active_value = value;
            out.push(request);
            proof {
                lemma_views_push(sent, request);
            }
        }
        assert(views(out@) =~= head + uniform_requests(pre, values, (i + 1) as nat));
        i += 1;
    }
    let ghost head = head + uniform_requests(pre, values, pre.uniforms.len());

    let mut i: usize = 0;
    while i < shortcut.textures.len()
        invariant
            i <= shortcut.textures@.len(),
            shortcut.textures@.len() == pre.textures.len(),
            storage.admits(*shortcut),
            bindings == storage.textures.values_at(shortcut.textures@),
            after == program_after(pre, buffers, values, bindings),
            program.name == pre.name,
            program.attributes@ == pre.attributes,
            program.blocks@ =~= after.blocks,
            program.uniforms@ =~= after.uniforms,
            program.textures@.len() == pre.textures.len(),
            forall|j: int| 0 <= j < i ==> program.textures@[j] == after.textures[j],
            forall|j: int| i <= j < pre.textures.len() ==> program.textures@[j] == pre.textures[j],
            views(out@) == head + texture_requests(pre, bindings, i as nat),
        decreases shortcut.textures@.len() - i,
    {
        let binding = storage.get_texture(shortcut.textures[i]);
        assert(binding == bindings[i as int]);
        if !program.textures[i].is_bound_to(binding) {
            let ghost sent = out@;
            let request = Request::CastBindTexture(
                program.textures[i].slot,
                binding.texture,
                binding.sampler,
            );
            program.textures[i].active = Some(binding);
            out.push(request);
            proof {
                lemma_views_push(sent, request);
            }
        }
        assert(views(out@) =~= head + texture_requests(pre, bindings, (i + 1) as nat));
        i += 1;
    }
    proof {
        assert(program.textures@ =~= after.textures);
        assert(program@ == after);
        assert(views(out@) =~= before + environment_requests(pre, buffers, values, bindings));
    }
}

} // verus!
