use gfx_render::envir::{Bindings, OptimizationError, Shortcut, Storage, VarCategory};
use gfx_render::handle::Table;
use gfx_render::shade::{
    AttributeVar, BlockVar, ProgramMeta, SamplerVar, TextureBinding, UniformValue, UniformVar,
};

fn block(name: &str) -> BlockVar {
    BlockVar { name: name.to_string(), active: None }
}

fn uniform(name: &str, location: u32) -> UniformVar {
    UniformVar { name: name.to_string(), location, active_value: UniformValue::ValueI32(0) }
}

fn sampler(name: &str, slot: u8) -> SamplerVar {
    SamplerVar { name: name.to_string(), slot, active: None }
}

fn program(blocks: Vec<BlockVar>, uniforms: Vec<UniformVar>, textures: Vec<SamplerVar>) -> ProgramMeta {
    ProgramMeta {
        name: 1,
        attributes: vec![AttributeVar { name: "a_Pos".to_string(), slot: 0 }],
        blocks,
        uniforms,
        textures,
    }
}

#[test]
fn table_issues_handles_in_sequence() {
    let mut table: Table<u32> = Table::new();
    assert_eq!(table.len(), 0);
    assert!(!table.contains(0));
    assert_eq!(table.push(10), 0);
    assert_eq!(table.push(20), 1);
    assert_eq!(table.push(30), 2);
    assert_eq!(table.len(), 3);
    assert!(table.contains(2));
    assert!(!table.contains(3));
    assert_eq!(*table.get(0), 10);
    assert_eq!(*table.get(1), 20);
    assert_eq!(*table.get(2), 30);
}

#[test]
fn table_get_mut_changes_one_slot_only() {
    let mut table: Table<u32> = Table::new();
    table.push(10);
    table.push(20);
    table.push(30);
    *table.get_mut(1) = 21;
    assert_eq!(*table.get(0), 10);
    assert_eq!(*table.get(1), 21);
    assert_eq!(*table.get(2), 30);
    assert_eq!(table.len(), 3);
}

#[test]
fn bindings_start_empty() {
    let bindings: Bindings<u32> = Bindings::new();
    assert_eq!(bindings.len(), 0);
    assert_eq!(bindings.find(&"a".to_string()), None);
}

#[test]
fn bindings_find_returns_position_of_insertion() {
    let mut bindings: Bindings<u32> = Bindings::new();
    bindings.set("a".to_string(), 1);
    bindings.set("b".to_string(), 2);
    bindings.set("c".to_string(), 3);
    assert_eq!(bindings.len(), 3);
    assert_eq!(bindings.find(&"a".to_string()), Some(0));
    assert_eq!(bindings.find(&"b".to_string()), Some(1));
    assert_eq!(bindings.find(&"c".to_string()), Some(2));
    assert_eq!(bindings.find(&"d".to_string()), None);
    assert_eq!(bindings.get(1), 2);
}

#[test]
fn bindings_last_write_wins_and_keeps_position() {
    let mut bindings: Bindings<u32> = Bindings::new();
    bindings.set("a".to_string(), 1);
    bindings.set("b".to_string(), 2);
    bindings.set("a".to_string(), 9);
    assert_eq!(bindings.len(), 2);
    assert_eq!(bindings.find(&"a".to_string()), Some(0));
    assert_eq!(bindings.get(0), 9);
    assert_eq!(bindings.get(1), 2);
}

#[test]
fn storage_kinds_are_independent() {
    let mut storage = Storage::new();
    storage.set_block("x".to_string(), 4);
    storage.set_uniform("x".to_string(), UniformValue::ValueI32(5));
    storage.set_texture("x".to_string(), 6, 7);
    assert_eq!(storage.blocks.len(), 1);
    assert_eq!(storage.uniforms.len(), 1);
    assert_eq!(storage.textures.len(), 1);
    assert_eq!(storage.get_block(0), 4);
    assert_eq!(storage.get_uniform(0), UniformValue::ValueI32(5));
    assert_eq!(storage.get_texture(0), TextureBinding { texture: 6, sampler: 7 });
}

#[test]
fn storage_set_block_replaces_earlier_value() {
    let mut storage = Storage::new();
    storage.set_block("b_Light".to_string(), 4);
    storage.set_block("b_Light".to_string(), 8);
    assert_eq!(storage.blocks.len(), 1);
    assert_eq!(storage.get_block(0), 8);
}

#[test]
fn optimize_lists_keys_in_declared_order() {
    let mut storage = Storage::new();
    storage.set_block("b_Two".to_string(), 20);
    storage.set_block("b_Spare".to_string(), 99);
    storage.set_block("b_One".to_string(), 10);
    storage.set_uniform("u_Spare".to_string(), UniformValue::ValueI32(0));
    storage.set_uniform("u_Color".to_string(), UniformValue::ValueF32(1.5f32.to_bits()));
    storage.set_texture("t_Diffuse".to_string(), 3, 1);
    let program = program(
        vec![block("b_One"), block("b_Two")],
        vec![uniform("u_Color", 7)],
        vec![sampler("t_Diffuse", 2)],
    );
    let cut = storage.optimize(&program).unwrap();
    assert_eq!(cut, Shortcut { blocks: vec![2, 0], uniforms: vec![1], textures: vec![0] });
    assert!(storage.is_fit(&cut, &program));
    assert_eq!(storage.get_block(cut.blocks[0]), 10);
    assert_eq!(storage.get_block(cut.blocks[1]), 20);
    assert_eq!(storage.get_uniform(cut.uniforms[0]), UniformValue::ValueF32(1.5f32.to_bits()));
    assert_eq!(storage.get_texture(cut.textures[0]), TextureBinding { texture: 3, sampler: 1 });
}

#[test]
fn optimize_of_program_without_inputs_is_empty() {
    let storage = Storage::new();
    let program = program(vec![], vec![], vec![]);
    let cut = storage.optimize(&program).unwrap();
    assert_eq!(cut, Shortcut { blocks: vec![], uniforms: vec![], textures: vec![] });
    assert!(storage.is_fit(&cut, &program));
}

#[test]
fn optimize_repeats_a_key_for_a_name_declared_twice() {
    let mut storage = Storage::new();
    storage.set_block("b_One".to_string(), 10);
    let program = program(vec![block("b_One"), block("b_One")], vec![], vec![]);
    let cut = storage.optimize(&program).unwrap();
    assert_eq!(cut.blocks, vec![0, 0]);
}

#[test]
fn optimize_names_missing_block() {
    let mut storage = Storage::new();
    storage.set_block("b_One".to_string(), 10);
    storage.set_uniform("u_Color".to_string(), UniformValue::ValueI32(1));
    let program = program(vec![block("b_One"), block("b_Two")], vec![uniform("u_Color", 0)], vec![]);
    assert_eq!(
        storage.optimize(&program),
        Err(OptimizationError::MissingVariable(VarCategory::Block, "b_Two".to_string()))
    );
}

#[test]
fn optimize_names_missing_uniform() {
    let mut storage = Storage::new();
    storage.set_block("b_One".to_string(), 10);
    let program = program(vec![block("b_One")], vec![uniform("u_Color", 0)], vec![]);
    assert_eq!(
        storage.optimize(&program),
        Err(OptimizationError::MissingVariable(VarCategory::Uniform, "u_Color".to_string()))
    );
}

#[test]
fn optimize_names_missing_texture() {
    let mut storage = Storage::new();
    storage.set_texture("t_Other".to_string(), 1, 1);
    let program = program(vec![], vec![], vec![sampler("t_Diffuse", 0)]);
    assert_eq!(
        storage.optimize(&program),
        Err(OptimizationError::MissingVariable(VarCategory::Texture, "t_Diffuse".to_string()))
    );
}

#[test]
fn optimize_reports_the_first_of_several_missing() {
    let storage = Storage::new();
    let program = program(
        vec![block("b_One"), block("b_Two")],
        vec![uniform("u_Color", 0)],
        vec![sampler("t_Diffuse", 0)],
    );
    assert_eq!(
        storage.optimize(&program),
        Err(OptimizationError::MissingVariable(VarCategory::Block, "b_One".to_string()))
    );
    let program = program_without_blocks();
    assert_eq!(
        storage.optimize(&program),
        Err(OptimizationError::MissingVariable(VarCategory::Uniform, "u_A".to_string()))
    );
}

fn program_without_blocks() -> ProgramMeta {
    program(vec![], vec![uniform("u_A", 0), uniform("u_B", 1)], vec![sampler("t_Diffuse", 0)])
}

#[test]
fn optimize_does_not_look_a_name_up_in_another_kind() {
    let mut storage = Storage::new();
    storage.set_uniform("shared".to_string(), UniformValue::ValueI32(1));
    let program = program(vec![block("shared")], vec![], vec![]);
    assert_eq!(
        storage.optimize(&program),
        Err(OptimizationError::MissingVariable(VarCategory::Block, "shared".to_string()))
    );
}

#[test]
fn is_fit_compares_lengths_per_kind() {
    let storage = Storage::new();
    let program = program(vec![block("b_One")], vec![uniform("u_Color", 0)], vec![]);
    assert!(storage.is_fit(
        &Shortcut { blocks: vec![0], uniforms: vec![0], textures: vec![] },
        &program
    ));
    assert!(!storage.is_fit(
        &Shortcut { blocks: vec![], uniforms: vec![0], textures: vec![] },
        &program
    ));
    assert!(!storage.is_fit(
        &Shortcut { blocks: vec![0], uniforms: vec![0, 1], textures: vec![] },
        &program
    ));
    assert!(!storage.is_fit(
        &Shortcut { blocks: vec![0], uniforms: vec![0], textures: vec![0] },
        &program
    ));
}

#[test]
fn uniform_values_are_compared_bit_for_bit() {
    let one = 1.0f32.to_bits();
    let zero = 0.0f32.to_bits();
    let minus_zero = (-0.0f32).to_bits();
    assert!(UniformValue::ValueI32(3).same(&UniformValue::ValueI32(3)));
    assert!(!UniformValue::ValueI32(3).same(&UniformValue::ValueI32(4)));
    assert!(!UniformValue::ValueI32(3).same(&UniformValue::ValueF32(3)));
    assert!(UniformValue::ValueF32(one).same(&UniformValue::ValueF32(one)));
    assert!(!UniformValue::ValueF32(zero).same(&UniformValue::ValueF32(minus_zero)));
    assert!(UniformValue::ValueI32Vec([1, 2, 3, 4]).same(&UniformValue::ValueI32Vec([1, 2, 3, 4])));
    assert!(!UniformValue::ValueI32Vec([1, 2, 3, 4]).same(&UniformValue::ValueI32Vec([1, 2, 3, 5])));
    assert!(UniformValue::ValueF32Vec([one, zero, one, zero])
        .same(&UniformValue::ValueF32Vec([one, zero, one, zero])));
    assert!(!UniformValue::ValueF32Vec([one, zero, one, zero])
        .same(&UniformValue::ValueF32Vec([zero, zero, one, zero])));
    let identity = [
        [one, zero, zero, zero],
        [zero, one, zero, zero],
        [zero, zero, one, zero],
        [zero, zero, zero, one],
    ];
    let mut other = identity;
    assert!(UniformValue::ValueF32Matrix(identity).same(&UniformValue::ValueF32Matrix(other)));
    other[3][2] = one;
    assert!(!UniformValue::ValueF32Matrix(identity).same(&UniformValue::ValueF32Matrix(other)));
}
