use gfx_render::binding::{bind_environment, bind_mesh, bind_slice, AttributeMismatch};
use gfx_render::envir::{Shortcut, Storage};
use gfx_render::mesh::{Attribute, Mesh, Slice};
use gfx_render::protocol::Request;
use gfx_render::shade::{
    AttributeVar, BlockBinding, BlockVar, ProgramMeta, SamplerVar, TextureBinding, UniformValue,
    UniformVar,
};

fn attribute(name: &str, buffer: u32, size: u8, offset: u32, stride: u8) -> Attribute {
    Attribute {
        buffer,
        size,
        offset,
        stride,
        is_normalized: false,
        is_interpolated: false,
        name: name.to_string(),
    }
}

fn wants(names_and_slots: &[(&str, u8)]) -> ProgramMeta {
    ProgramMeta {
        name: 9,
        attributes: names_and_slots
            .iter()
            .map(|(name, slot)| AttributeVar { name: name.to_string(), slot: *slot })
            .collect(),
        blocks: vec![],
        uniforms: vec![],
        textures: vec![],
    }
}

#[test]
fn mesh_new_has_no_attributes() {
    let mesh = Mesh::new(12);
    assert_eq!(mesh.num_vertices, 12);
    assert!(mesh.attributes.is_empty());
    assert_eq!(mesh.find(&"a_Pos".to_string()), None);
}

#[test]
fn mesh_find_returns_first_attribute_of_a_name() {
    let mut mesh = Mesh::new(3);
    mesh.attributes.push(attribute("a_Pos", 1, 3, 0, 12));
    mesh.attributes.push(attribute("a_Normal", 2, 3, 0, 12));
    mesh.attributes.push(attribute("a_Normal", 3, 3, 0, 12));
    assert_eq!(mesh.find(&"a_Pos".to_string()), Some(0));
    assert_eq!(mesh.find(&"a_Normal".to_string()), Some(1));
    assert_eq!(mesh.find(&"a_Color".to_string()), None);
}

#[test]
fn bind_slice_vertex_range_is_one_draw() {
    let mut out = vec![Request::CastSwapBuffers];
    bind_slice(&mut out, Slice::VertexSlice(2, 11));
    assert_eq!(out, vec![Request::CastSwapBuffers, Request::CastDraw(2, 11)]);
}

#[test]
fn bind_slice_index_range_binds_then_draws() {
    let mut out = Vec::new();
    bind_slice(&mut out, Slice::IndexSlice(6, 3, 9));
    assert_eq!(out, vec![Request::CastBindIndex(6), Request::CastDrawIndexed(3, 9)]);
}

#[test]
fn bind_slice_keeps_an_empty_range_as_given() {
    let mut out = Vec::new();
    bind_slice(&mut out, Slice::VertexSlice(5, 5));
    assert_eq!(out, vec![Request::CastDraw(5, 5)]);
}

#[test]
fn bind_mesh_binds_in_program_order() {
    let mut mesh = Mesh::new(3);
    mesh.attributes.push(attribute("a_Pos", 1, 3, 0, 32));
    mesh.attributes.push(attribute("a_Normal", 1, 3, 12, 32));
    mesh.attributes.push(attribute("a_Tex", 2, 2, 24, 8));
    let program = wants(&[("a_Tex", 4), ("a_Pos", 0)]);
    let mut out = vec![Request::CastBindArrayBuffer(1)];
    assert_eq!(bind_mesh(&mut out, &mesh, &program), Ok(()));
    assert_eq!(
        out,
        vec![
            Request::CastBindArrayBuffer(1),
            Request::CastBindAttribute(4, 2, 2, 24, 8),
            Request::CastBindAttribute(0, 1, 3, 0, 32),
        ]
    );
}

#[test]
fn bind_mesh_of_program_without_attributes_binds_nothing() {
    let mesh = Mesh::new(3);
    let program = wants(&[]);
    let mut out = Vec::new();
    assert_eq!(bind_mesh(&mut out, &mesh, &program), Ok(()));
    assert!(out.is_empty());
}

#[test]
fn bind_mesh_reports_first_lacking_attribute_and_keeps_earlier_requests() {
    let mut mesh = Mesh::new(3);
    mesh.attributes.push(attribute("a_Pos", 1, 3, 0, 12));
    let program = wants(&[("a_Pos", 0), ("a_Normal", 1), ("a_Tex", 2)]);
    let mut out = Vec::new();
    assert_eq!(
        bind_mesh(&mut out, &mesh, &program),
        Err(AttributeMismatch { name: "a_Normal".to_string() })
    );
    assert_eq!(out, vec![Request::CastBindAttribute(0, 1, 3, 0, 12)]);
}

#[test]
fn bind_mesh_takes_first_of_two_attributes_with_one_name() {
    let mut mesh = Mesh::new(3);
    mesh.attributes.push(attribute("a_Pos", 1, 3, 0, 12));
    mesh.attributes.push(attribute("a_Pos", 2, 4, 8, 16));
    let program = wants(&[("a_Pos", 5)]);
    let mut out = Vec::new();
    assert_eq!(bind_mesh(&mut out, &mesh, &program), Ok(()));
    assert_eq!(out, vec![Request::CastBindAttribute(5, 1, 3, 0, 12)]);
}

fn shaded() -> ProgramMeta {
    ProgramMeta {
        name: 9,
        attributes: vec![],
        blocks: vec![
            BlockVar { name: "b_Camera".to_string(), active: None },
            BlockVar { name: "b_Light".to_string(), active: None },
        ],
        uniforms: vec![
            UniformVar {
                name: "u_Color".to_string(),
                location: 3,
                active_value: UniformValue::ValueI32(0),
            },
            UniformVar {
                name: "u_Scale".to_string(),
                location: 5,
                active_value: UniformValue::ValueI32(0),
            },
        ],
        textures: vec![SamplerVar { name: "t_Diffuse".to_string(), slot: 6, active: None }],
    }
}

fn lit() -> Storage {
    let mut storage = Storage::new();
    storage.set_block("b_Light".to_string(), 41);
    storage.set_block("b_Camera".to_string(), 40);
    storage.set_uniform("u_Scale".to_string(), UniformValue::ValueI32(0));
    storage.set_uniform("u_Color".to_string(), UniformValue::ValueI32(7));
    storage.set_texture("t_Diffuse".to_string(), 50, 2);
    storage
}

#[test]
fn bind_environment_binds_program_then_each_input_that_differs() {
    let storage = lit();
    let mut program = shaded();
    let cut = storage.optimize(&program).unwrap();
    let mut out = Vec::new();
    bind_environment(&mut out, &storage, &cut, &mut program);
    assert_eq!(
        out,
        vec![
            Request::CastBindProgram(9),
            Request::CastBindUniformBlock(9, 0, 0, 40),
            Request::CastBindUniformBlock(9, 1, 1, 41),
            Request::CastBindUniform(3, UniformValue::ValueI32(7)),
            Request::CastBindTexture(6, 50, 2),
        ]
    );
    assert_eq!(program.blocks[0].active, Some(BlockBinding { slot: 0, buffer: 40 }));
    assert_eq!(program.blocks[1].active, Some(BlockBinding { slot: 1, buffer: 41 }));
    assert_eq!(program.uniforms[0].active_value, UniformValue::ValueI32(7));
    assert_eq!(program.uniforms[1].active_value, UniformValue::ValueI32(0));
    assert_eq!(program.textures[0].active, Some(TextureBinding { texture: 50, sampler: 2 }));
    assert_eq!(program.blocks[0].name, "b_Camera");
    assert_eq!(program.uniforms[0].location, 3);
    assert_eq!(program.textures[0].slot, 6);
}

#[test]
fn bind_environment_again_binds_the_program_only() {
    let storage = lit();
    let mut program = shaded();
    let cut = storage.optimize(&program).unwrap();
    let mut out = Vec::new();
    bind_environment(&mut out, &storage, &cut, &mut program);
    let remembered = program.clone();
    let mut out = Vec::new();
    bind_environment(&mut out, &storage, &cut, &mut program);
    assert_eq!(out, vec![Request::CastBindProgram(9)]);
    assert_eq!(program, remembered);
}

#[test]
fn bind_environment_rebinds_what_changed_since() {
    let mut storage = lit();
    let mut program = shaded();
    let cut = storage.optimize(&program).unwrap();
    let mut out = Vec::new();
    bind_environment(&mut out, &storage, &cut, &mut program);
    storage.set_block("b_Light".to_string(), 77);
    storage.set_uniform("u_Scale".to_string(), UniformValue::ValueI32(2));
    storage.set_texture("t_Diffuse".to_string(), 50, 3);
    let cut = storage.optimize(&program).unwrap();
    let mut out = Vec::new();
    bind_environment(&mut out, &storage, &cut, &mut program);
    assert_eq!(
        out,
        vec![
            Request::CastBindProgram(9),
            Request::CastBindUniformBlock(9, 1, 1, 77),
            Request::CastBindUniform(5, UniformValue::ValueI32(2)),
            Request::CastBindTexture(6, 50, 3),
        ]
    );
}

#[test]
fn bind_environment_of_program_without_inputs_binds_the_program() {
    let storage = Storage::new();
    let mut program = ProgramMeta {
        name: 4,
        attributes: vec![],
        blocks: vec![],
        uniforms: vec![],
        textures: vec![],
    };
    let cut = Shortcut { blocks: vec![], uniforms: vec![], textures: vec![] };
    let mut out = vec![Request::CastBindFrameBuffer(0)];
    bind_environment(&mut out, &storage, &cut, &mut program);
    assert_eq!(out, vec![Request::CastBindFrameBuffer(0), Request::CastBindProgram(4)]);
}

#[test]
fn bind_environment_block_slots_wrap_after_255() {
    let mut storage = Storage::new();
    storage.set_block("b".to_string(), 1);
    let mut program = ProgramMeta {
        name: 4,
        attributes: vec![],
        blocks: (0..258).map(|_| BlockVar { name: "b".to_string(), active: None }).collect(),
        uniforms: vec![],
        textures: vec![],
    };
    let cut = storage.optimize(&program).unwrap();
    let mut out = Vec::new();
    bind_environment(&mut out, &storage, &cut, &mut program);
    assert_eq!(out.len(), 259);
    assert_eq!(out[1], Request::CastBindUniformBlock(4, 0, 0, 1));
    assert_eq!(out[256], Request::CastBindUniformBlock(4, 255, 255, 1));
    assert_eq!(out[257], Request::CastBindUniformBlock(4, 0, 0, 1));
    assert_eq!(out[258], Request::CastBindUniformBlock(4, 1, 1, 1));
    assert_eq!(program.blocks[257].active, Some(BlockBinding { slot: 1, buffer: 1 }));
}
