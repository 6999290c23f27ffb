//! What the requests of a binding leave bound.
//!
//! A binding skips every input that the program remembers to hold the
//! wanted value already. That is sound as long as what the program
//! remembers is what the executor holds. This module states that condition
//! over a model of the inputs of one program as the executor holds them, and
//! proves that binding preserves it: after the requests of a binding have
//! taken effect, the executor holds every wanted value, and the program
//! remembers exactly those.

use crate::binding::{
    block_binding, block_requests, block_slot, environment_requests, program_after,
    texture_requests, uniform_requests,
};
use crate::protocol::RequestView;
use crate::shade::{BufferHandle, Location, ProgramView, TextureBinding, UniformValue};
use vstd::prelude::*;

verus! {

/// The inputs of one program as the executor holds them: the buffer attached
/// to each block slot, the value of each uniform location, the texture and
/// sampler feeding each texture slot.
pub struct Inputs {
    pub blocks: Map<u8, BufferHandle>,
    pub uniforms: Map<Location, UniformValue>,
    pub textures: Map<u8, TextureBinding>,
}

/// The inputs after one request has taken effect.
pub open spec fn apply(inputs: Inputs, request: RequestView) -> Inputs {
    match request {
        RequestView::CastBindUniformBlock(_, slot, _, buffer) => Inputs {
            blocks: inputs.blocks.insert(slot, buffer),
            ..inputs
        },
        RequestView::CastBindUniform(location, value) => Inputs {
            uniforms: inputs.uniforms.insert(location, value),
            ..inputs
        },
        RequestView::CastBindTexture(slot, texture, sampler) => Inputs {
            textures: inputs.textures.insert(slot, TextureBinding { texture, sampler }),
            ..inputs
        },
        _ => inputs,
    }
}

/// The inputs after `requests` have taken effect, in order.
pub open spec fn replay(inputs: Inputs, requests: Seq<RequestView>) -> Inputs
    decreases requests.len(),
{
    if requests.len() == 0 {
        inputs
    } else {
        apply(replay(inputs, requests.drop_last()), requests.last())
    }
}

/// No two inputs of `program` share a place on the executor: it declares at
/// most 256 blocks, and its uniforms have distinct locations and its
/// textures distinct slots.
pub open spec fn well_declared(program: ProgramView) -> bool {
    &&& program.blocks.len() <= 256
    &&& forall|i: int, j: int|
        0 <= i < j < program.uniforms.len() ==> (#[trigger] program.uniforms[i]).location != (
        #[trigger] program.uniforms[j]).location
    &&& forall|i: int, j: int|
        0 <= i < j < program.textures.len() ==> (#[trigger] program.textures[i]).slot != (
        #[trigger] program.textures[j]).slot
}

/// What the blocks of `program` remember is what `inputs` holds.
pub open spec fn agrees_on_blocks(inputs: Inputs, program: ProgramView) -> bool {
    forall|i: int|
        0 <= i < program.blocks.len() ==> ((#[trigger] program.blocks[i]).active matches Some(
            binding,
        ) ==> inputs.blocks.dom().contains(binding.slot) && inputs.blocks[binding.slot]
            == binding.buffer)
}

/// What the uniforms of `program` remember is what `inputs` holds.
pub open spec fn agrees_on_uniforms(inputs: Inputs, program: ProgramView) -> bool {
    forall|i: int|
        0 <= i < program.uniforms.len() ==> inputs.uniforms.dom().contains(
            (#[trigger] program.uniforms[i]).location,
        ) && inputs.uniforms[program.uniforms[i].location] == program.uniforms[i].active_value
}

/// What the textures of `program` remember is what `inputs` holds.
pub open spec fn agrees_on_textures(inputs: Inputs, program: ProgramView) -> bool {
    forall|i: int|
        0 <= i < program.textures.len() ==> ((#[trigger] program.textures[i]).active matches Some(
            binding,
        ) ==> inputs.textures.dom().contains(program.textures[i].slot)
            && inputs.textures[program.textures[i].slot] == binding)
}

/// What `program` remembers of its inputs is what `inputs` holds.
pub open spec fn agrees(inputs: Inputs, program: ProgramView) -> bool {
    &&& agrees_on_blocks(inputs, program)
    &&& agrees_on_uniforms(inputs, program)
    &&& agrees_on_textures(inputs, program)
}

/// `inputs` holds the wanted values: `buffers[i]` at the slot of the `i`-th
/// block, `values[i]` at the location of the `i`-th uniform, `bindings[i]`
/// at the slot of the `i`-th texture.
pub open spec fn holds(
    inputs: Inputs,
    program: ProgramView,
    buffers: Seq<BufferHandle>,
    values: Seq<UniformValue>,
    bindings: Seq<TextureBinding>,
) -> bool {
    &&& forall|i: int|
        0 <= i < program.blocks.len() ==> inputs.blocks.dom().contains(#[trigger] block_slot(i))
            && inputs.blocks[block_slot(i)] == buffers[i]
    &&& forall|i: int|
        0 <= i < program.uniforms.len() ==> inputs.uniforms.dom().contains(
            (#[trigger] program.uniforms[i]).location,
        ) && inputs.uniforms[program.uniforms[i].location] == values[i]
    &&& forall|i: int|
        0 <= i < program.textures.len() ==> inputs.textures.dom().contains(
            (#[trigger] program.textures[i]).slot,
        ) && inputs.textures[program.textures[i].slot] == bindings[i]
}

/// A request appended takes effect last.
pub proof fn lemma_replay_push(inputs: Inputs, requests: Seq<RequestView>, request: RequestView)
    ensures
        replay(inputs, requests.push(request)) == apply(replay(inputs, requests), request),
{
    assert(requests.push(request).drop_last() =~= requests);
}

/// Requests take effect one run after the other.
pub proof fn lemma_replay_concat(inputs: Inputs, first: Seq<RequestView>, second: Seq<RequestView>)
    ensures
        replay(inputs, first + second) == replay(replay(inputs, first), second),
    decreases second.len(),
{
    if second.len() == 0 {
        assert(first + second =~= first);
    } else {
        lemma_replay_concat(inputs, first, second.drop_last());
        assert(first + second =~= (first + second.drop_last()).push(second.last()));
        lemma_replay_push(inputs, first + second.drop_last(), second.last());
    }
}

/// Two maps treat `slot` alike.
spec fn same_at(a: Map<u8, BufferHandle>, b: Map<u8, BufferHandle>, slot: u8) -> bool {
    (a.dom().contains(slot) <==> b.dom().contains(slot)) && a[slot] == b[slot]
}

/// After the requests for the first `n` blocks, those blocks hold their
/// wanted buffers and nothing else has changed.
proof fn lemma_blocks_replayed(
    inputs: Inputs,
    program: ProgramView,
    buffers: Seq<BufferHandle>,
    n: nat,
)
    requires
        n <= program.blocks.len() <= 256,
        agrees_on_blocks(inputs, program),
    ensures
        ({
            let after = replay(inputs, block_requests(program, buffers, n));
            &&& after.uniforms == inputs.uniforms
            &&& after.textures == inputs.textures
            &&& forall|i: int|
                0 <= i < n ==> after.blocks.dom().contains(#[trigger] block_slot(i))
                    && after.blocks[block_slot(i)] == buffers[i]
            &&& forall|slot: u8| n <= slot ==> #[trigger] same_at(after.blocks, inputs.blocks, slot)
        }),
    decreases n,
{
    if n > 0 {
        let i = n - 1;
        lemma_blocks_replayed(inputs, program, buffers, i as nat);
        let earlier = block_requests(program, buffers, i as nat);
        let before = replay(inputs, earlier);
        let binding = block_binding(i, buffers[i]);
        let here = block_slot(i);
        assert(here == i);
        assert(same_at(before.blocks, inputs.blocks, here));
        if program.blocks[i].active != Some(binding) {
            lemma_replay_push(
                inputs,
                earlier,
                RequestView::CastBindUniformBlock(program.name, here, here, binding.buffer),
            );
        }
        let after = replay(inputs, block_requests(program, buffers, n));
        assert(after.blocks == before.blocks.insert(here, buffers[i])) by {
            if program.blocks[i].active == Some(binding) {
                assert(before.blocks.insert(here, buffers[i]) =~= before.blocks);
            }
        }
        assert forall|k: int| 0 <= k < n implies after.blocks.dom().contains(
            #[trigger] block_slot(k),
        ) && after.blocks[block_slot(k)] == buffers[k] by {
            assert(block_slot(k) == k);
            if k < i {
                assert(before.blocks[block_slot(k)] == buffers[k]);
            }
        }
        assert forall|slot: u8| n <= slot implies #[trigger] same_at(
            after.blocks,
            inputs.blocks,
            slot,
        ) by {
            assert(same_at(before.blocks, inputs.blocks, slot));
        }
    }
}

/// After the requests for the first `n` uniforms, those uniforms hold their
/// wanted values and nothing else has changed.
proof fn lemma_uniforms_replayed(
    inputs: Inputs,
    program: ProgramView,
    values: Seq<UniformValue>,
    n: nat,
)
    requires
        n <= program.uniforms.len(),
        well_declared(program),
        agrees_on_uniforms(inputs, program),
    ensures
        ({
            let after = replay(inputs, uniform_requests(program, values, n));
            &&& after.blocks == inputs.blocks
            &&& after.textures == inputs.textures
            &&& forall|i: int|
                0 <= i < n ==> after.uniforms.dom().contains(
                    (#[trigger] program.uniforms[i]).location,
                ) && after.uniforms[program.uniforms[i].location] == values[i]
            &&& forall|i: int|
                n <= i < program.uniforms.len() ==> after.uniforms.dom().contains(
                    (#[trigger] program.uniforms[i]).location,
                ) && after.uniforms[program.uniforms[i].location]
                    == program.uniforms[i].active_value
        }),
    decreases n,
{
    if n > 0 {
        let i = n - 1;
        lemma_uniforms_replayed(inputs, program, values, i as nat);
        let earlier = uniform_requests(program, values, i as nat);
        let before = replay(inputs, earlier);
        if program.uniforms[i].active_value != values[i] {
            lemma_replay_push(
                inputs,
                earlier,
                RequestView::CastBindUniform(program.uniforms[i].location, values[i]),
            );
        }
        let after = replay(inputs, uniform_requests(program, values, n));
        assert forall|k: int| 0 <= k < n implies after.uniforms.dom().contains(
            (#[trigger] program.uniforms[k]).location,
        ) && after.uniforms[program.uniforms[k].location] == values[k] by {
            if k < i {
                assert(program.uniforms[k].location != program.uniforms[i].location);
                assert(before.uniforms[program.uniforms[k].location] == values[k]);
            }
        }
        assert forall|k: int| n <= k < program.uniforms.len() implies after.uniforms.dom().contains(
            (#[trigger] program.uniforms[k]).location,
        ) && after.uniforms[program.uniforms[k].location]
            == program.uniforms[k].active_value by {
            assert(program.uniforms[i].location != program.uniforms[k].location);
        }
    }
}

/// After the requests for the first `n` textures, those textures hold their
/// wanted bindings and nothing else has changed.
proof fn lemma_textures_replayed(
    inputs: Inputs,
    program: ProgramView,
    bindings: Seq<TextureBinding>,
    n: nat,
)
    requires
        n <= program.textures.len(),
        well_declared(program),
        agrees_on_textures(inputs, program),
    ensures
        ({
            let after = replay(inputs, texture_requests(program, bindings, n));
            &&& after.blocks == inputs.blocks
            &&& after.uniforms == inputs.uniforms
            &&& forall|i: int|
                0 <= i < n ==> after.textures.dom().contains((#[trigger] program.textures[i]).slot)
                    && after.textures[program.textures[i].slot] == bindings[i]
            &&& forall|i: int|
                n <= i < program.textures.len() ==> ((#[trigger] program.textures[i]).active matches Some(
                    binding,
                ) ==> after.textures.dom().contains(program.textures[i].slot)
                    && after.textures[program.textures[i].slot] == binding)
        }),
    decreases n,
{
    if n > 0 {
        let i = n - 1;
        lemma_textures_replayed(inputs, program, bindings, i as nat);
        let earlier = texture_requests(program, bindings, i as nat);
        let before = replay(inputs, earlier);
        if program.textures[i].active != Some(bindings[i]) {
            lemma_replay_push(
                inputs,
                earlier,
                RequestView::CastBindTexture(
                    program.textures[i].slot,
                    bindings[i].texture,
                    bindings[i].sampler,
                ),
            );
        }
        let after = replay(inputs, texture_requests(program, bindings, n));
        assert forall|k: int| 0 <= k < n implies after.textures.dom().contains(
            (#[trigger] program.textures[k]).slot,
        ) && after.textures[program.textures[k].slot] == bindings[k] by {
            if k < i {
                assert(program.textures[k].slot != program.textures[i].slot);
                assert(before.textures[program.textures[k].slot] == bindings[k]);
            }
        }
        assert forall|k: int| n <= k < program.textures.len() implies ((
        #[trigger] program.textures[k]).active matches Some(binding)
            ==> after.textures.dom().contains(program.textures[k].slot)
            && after.textures[program.textures[k].slot] == binding) by {
            assert(program.textures[i].slot != program.textures[k].slot);
        }
    }
}

/// Binding is sound: where the executor holds what the program remembers,
/// the requests of a binding, skipped inputs and all, leave the executor
/// holding every wanted value, and the program remembering what the
/// executor holds.
pub proof fn lemma_binding_takes_effect(
    inputs: Inputs,
    program: ProgramView,
    buffers: Seq<BufferHandle>,
    values: Seq<UniformValue>,
    bindings: Seq<TextureBinding>,
)
    requires
        well_declared(program),
        agrees(inputs, program),
    ensures
        holds(
            replay(inputs, environment_requests(program, buffers, values, bindings)),
            program,
            buffers,
            values,
            bindings,
        ),
        agrees(
            replay(inputs, environment_requests(program, buffers, values, bindings)),
            program_after(program, buffers, values, bindings),
        ),
        well_declared(program_after(program, buffers, values, bindings)),
{
    let head = seq![RequestView::CastBindProgram(program.name)];
    let for_blocks = block_requests(program, buffers, program.blocks.len());
    let for_uniforms = uniform_requests(program, values, program.uniforms.len());
    let for_textures = texture_requests(program, bindings, program.textures.len());
    assert(replay(inputs, head) == inputs) by {
        lemma_replay_push(inputs, Seq::empty(), RequestView::CastBindProgram(program.name));
        assert(Seq::<RequestView>::empty().push(RequestView::CastBindProgram(program.name))
            =~= head);
    }
    let with_blocks = replay(inputs, for_blocks);
    lemma_blocks_replayed(inputs, program, buffers, program.blocks.len());
    let with_uniforms = replay(with_blocks, for_uniforms);
    lemma_uniforms_replayed(with_blocks, program, values, program.uniforms.len());
    let with_textures = replay(with_uniforms, for_textures);
    lemma_textures_replayed(with_uniforms, program, bindings, program.textures.len());
    lemma_replay_concat(inputs, head, for_blocks);
    lemma_replay_concat(inputs, head + for_blocks, for_uniforms);
    lemma_replay_concat(inputs, head + for_blocks + for_uniforms, for_textures);
    assert(replay(inputs, environment_requests(program, buffers, values, bindings))
        == with_textures);
    let after = program_after(program, buffers, values, bindings);
    assert forall|i: int| 0 <= i < after.blocks.len() implies ((
    #[trigger] after.blocks[i]).active matches Some(binding)
        ==> with_textures.blocks.dom().contains(binding.slot) && with_textures.blocks[binding.slot]
        == binding.buffer) by {
        assert(with_textures.blocks[block_slot(i)] == buffers[i]);
    }
}

} // verus!
