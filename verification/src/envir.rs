//! Shader-input environments and the matching of an environment against the
//! inputs a program declares.

use crate::search::{first, is_first, lemma_first_is, lemma_first_none, names_of, none, Named};
use crate::shade::{
    BufferHandle, ProgramMeta, ProgramView, SamplerHandle, TextureBinding, TextureHandle,
    UniformValue,
};
use vstd::prelude::*;

verus! {

/// Named values of one kind. A name occurs at most once; writing a name
/// that is already present replaces its value and keeps its position, so the
/// position of an entry never changes once it exists.
pub struct Bindings<V> {
    entries: Vec<(String, V)>,
}

impl<V> View for Bindings<V> {
    type V = Map<Seq<char>, V>;

    closed spec fn view(&self) -> Map<Seq<char>, V> {
        Map::new(
            |name: Seq<char>| self.names().contains(name),
            |name: Seq<char>| self.values()[self.names().index_of(name)],
        )
    }
}

impl<V> Bindings<V> {
    /// The names present, by position.
    pub closed spec fn names(&self) -> Seq<Seq<char>> {
        Seq::new(self.entries@.len(), |i: int| self.entries@[i].0@)
    }

    /// The values present, by position.
    pub closed spec fn values(&self) -> Seq<V> {
        Seq::new(self.entries@.len(), |i: int| self.entries@[i].1)
    }

    /// No name occurs twice.
    #[verifier::type_invariant]
    pub closed spec fn distinct(&self) -> bool {
        forall|i: int, j: int|
            #![trigger self.entries@[i], self.entries@[j]]
            0 <= i < j < self.entries@.len() ==> self.entries@[i].0@ != self.entries@[j].0@
    }

    /// The mapping sends the name at each position to the value there.
    pub proof fn lemma_entry(&self, key: int)
        requires
            self.distinct(),
            0 <= key < self.names().len(),
        ensures
            self@.dom().contains(self.names()[key]),
            self@[self.names()[key]] == self.values()[key],
    {
        let name = self.names()[key];
        assert(self.names().contains(name));
        let k = self.names().index_of(name);
        assert(self.names()[k] == name);
        if k < key {
            assert(self.entries@[k].0@ != self.entries@[key].0@);
        }
        if key < k {
            assert(self.entries@[key].0@ != self.entries@[k].0@);
        }
    }

    /// A name sits at one position only.
    pub proof fn lemma_position(&self, name: Seq<char>, key: int)
        requires
            self.distinct(),
            0 <= key < self.names().len(),
            self.names()[key] == name,
        ensures
            self.names().index_of(name) == key,
    {
        let k = self.names().index_of(name);
        if k < key {
            assert(self.entries@[k].0@ != self.entries@[key].0@);
        }
        if key < k {
            assert(self.entries@[key].0@ != self.entries@[k].0@);
        }
    }

    /// The values at the positions `keys`, in that order.
    pub open spec fn values_at(&self, keys: Seq<usize>) -> Seq<V> {
        Seq::new(keys.len(), |i: int| self.values()[keys[i] as int])
    }

    /// Keys that locate names select the values bound to those names.
    pub proof fn lemma_located(&self, keys: Seq<usize>, declared: Seq<Seq<char>>)
        requires
            self.distinct(),
            locates(*self, keys, declared),
        ensures
            self.values_at(keys) == resolved(self@, declared),
    {
        assert forall|i: int| 0 <= i < keys.len() implies self.values_at(keys)[i] == resolved(
            self@,
            declared,
        )[i] by {
            self.lemma_entry(keys[i] as int);
        }
        assert(self.values_at(keys) =~= resolved(self@, declared));
    }
}

impl<V: Copy> Bindings<V> {
    /// The collection with no entry.
    pub fn new() -> (bindings: Self)
        ensures
            bindings@ == Map::<Seq<char>, V>::empty(),
            bindings.names() == Seq::<Seq<char>>::empty(),
            bindings.values() == Seq::<V>::empty(),
    {
        let bindings = Bindings { entries: Vec::new() };
        assert(bindings@ =~= Map::<Seq<char>, V>::empty());
        bindings
    }

    /// Number of entries.
    pub fn len(&self) -> (n: usize)
        ensures
            n == self.names().len(),
    {
        self.entries.len()
    }

    /// Position of `name`, if it is present.
    pub fn find(&self, name: &String) -> (key: Option<usize>)
        ensures
            key is Some <==> self@.dom().contains(name@),
            key matches Some(k) ==> k < self.names().len() && self.names()[k as int] == name@,
    {
        let mut i: usize = 0;
        while i < self.entries.len()
            invariant
                i <= self.entries@.len(),
                forall|j: int| 0 <= j < i ==> self.entries@[j].0@ != name@,
            decreases self.entries@.len() - i,
        {
            if self.entries[i].0 == *name {
                assert(self.names()[i as int] == name@);
                return Some(i);
            }
            i += 1;
        }
        None
    }

    /// The value at position `key`.
    pub fn get(&self, key: usize) -> (value: V)
        requires
            key < self.names().len(),
        ensures
            value == self.values()[key as int],
            value == self@[self.names()[key as int]],
    {
        proof {
            use_type_invariant(self);
            self.lemma_entry(key as int);
        }
        self.entries[key].1
    }

    /// Binds `name` to `value`: replaces the value where the name is present,
    /// appends a new entry where it is not.
    pub fn set(&mut self, name: String, value: V)
        ensures
            final(self)@ == old(self)@.insert(name@, value),
            old(self)@.dom().contains(name@) ==> {
                &&& final(self).names() == old(self).names()
                &&& final(self).values() == old(self).values().update(
                    old(self).names().index_of(name@),
                    value,
                )
            },
            !old(self)@.dom().contains(name@) ==> {
                &&& final(self).names() == old(self).names().push(name@)
                &&& final(self).values() == old(self).values().push(value)
            },
    {
        proof {
            use_type_invariant(&*self);
        }
        let ghost pre = *self;
        let found = self.find(&name);
        let mut entries: Vec<(String, V)> = Vec::new();
        core::mem::swap(&mut self.entries, &mut entries);
        match found {
            Some(key) => {
                proof {
                    pre.lemma_entry(key as int);
                    pre.lemma_position(name@, key as int);
                }
                entries.set(key, (name, value));
            },
            None => {
                entries.push((name, value));
            },
        }
        assert forall|i: int, j: int| 0 <= i < j < entries@.len() implies entries@[i].0@
            != entries@[j].0@ by {
            if j < pre.entries@.len() {
                assert(pre.entries@[i].0@ != pre.entries@[j].0@);
            } else {
                assert(pre.names()[i] == pre.entries@[i].0@);
            }
        }
        core::mem::swap(&mut self.entries, &mut entries);
        proof {
            let post = *self;
            if found is Some {
                assert(post.names() =~= pre.names());
                assert(post.values() =~= pre.values().update(pre.names().index_of(name@), value));
            } else {
                assert(post.names() =~= pre.names().push(name@));
                assert(post.values() =~= pre.values().push(value));
            }
            assert forall|n: Seq<char>| post@.dom().contains(n) implies #[trigger] post@[n]
                == pre@.insert(name@, value)[n] by {
                let k = post.names().index_of(n);
                post.lemma_entry(k);
                if n != name@ {
                    pre.lemma_entry(k);
                }
            }
            assert forall|n: Seq<char>| post@.dom().contains(n) <==> pre@.insert(
                name@,
                value,
            ).dom().contains(n) by {
                if post.names().contains(n) && n != name@ {
                    let k = post.names().index_of(n);
                    assert(pre.names()[k] == n);
                }
                if pre.names().contains(n) {
                    let k = pre.names().index_of(n);
                    assert(post.names()[k] == n);
                }
                if n == name@ && found is None {
                    assert(post.names()[pre.names().len() as int] == n);
                }
            }
            assert(post@ =~= pre@.insert(name@, value));
        }
    }
}

/// Position of a block binding inside its environment.
pub type BlockKey = usize;

/// Position of a uniform value inside its environment.
pub type UniformKey = usize;

/// Position of a texture binding inside its environment.
pub type TextureKey = usize;

/// The kinds of shader input an environment supplies.
#[derive(Clone, Copy, Debug, PartialEq, Eq, Structural)]
pub enum VarCategory {
    Block,
    Uniform,
    Texture,
}

/// Why an environment could not be matched against a program.
#[derive(Clone, Debug, PartialEq, Eq)]
pub enum OptimizationError {
    /// The program declares an input of the given kind and name that the
    /// environment does not supply.
    MissingVariable(VarCategory, String),
}

/// The positions, inside one environment, of the inputs one program
/// declares: a list per kind, each parallel to the program's own list.
#[derive(Clone, Debug, PartialEq, Eq)]
pub struct Shortcut {
    pub blocks: Vec<BlockKey>,
    pub uniforms: Vec<UniformKey>,
    pub textures: Vec<TextureKey>,
}

/// A shader-input environment: named block bindings, uniform values and
/// texture bindings, usable with any program whose declarations it covers.
pub struct Storage {
    pub blocks: Bindings<BufferHandle>,
    pub uniforms: Bindings<UniformValue>,
    pub textures: Bindings<TextureBinding>,
}

/// An environment as three mappings from names.
pub struct StorageView {
    pub blocks: Map<Seq<char>, BufferHandle>,
    pub uniforms: Map<Seq<char>, UniformValue>,
    pub textures: Map<Seq<char>, TextureBinding>,
}

impl View for Storage {
    type V = StorageView;

    open spec fn view(&self) -> StorageView {
        StorageView { blocks: self.blocks@, uniforms: self.uniforms@, textures: self.textures@ }
    }
}

/// The test "is not held by `available`".
pub open spec fn absent_from<V>(available: Map<Seq<char>, V>) -> spec_fn(Seq<char>) -> bool {
    |name: Seq<char>| !available.dom().contains(name)
}

/// Position, in `declared`, of the first name that `available` lacks.
pub open spec fn first_missing<V>(available: Map<Seq<char>, V>, declared: Seq<Seq<char>>) -> Option<
    int,
> {
    first(declared, absent_from(available))
}

/// `available` holds every name of `declared`.
pub open spec fn has_all<V>(available: Map<Seq<char>, V>, declared: Seq<Seq<char>>) -> bool {
    forall|i: int| 0 <= i < declared.len() ==> available.dom().contains(#[trigger] declared[i])
}

/// `env` supplies every block, uniform and texture that `program` declares.
pub open spec fn covers(env: StorageView, program: ProgramView) -> bool {
    &&& has_all(env.blocks, program.block_names())
    &&& has_all(env.uniforms, program.uniform_names())
    &&& has_all(env.textures, program.texture_names())
}

/// The values that `available` holds for the names of `declared`, in order.
pub open spec fn resolved<V>(available: Map<Seq<char>, V>, declared: Seq<Seq<char>>) -> Seq<V> {
    Seq::new(declared.len(), |i: int| available[declared[i]])
}

/// `keys` locates, in `bindings`, each name of `declared` in turn.
pub open spec fn locates<V>(bindings: Bindings<V>, keys: Seq<usize>, declared: Seq<Seq<char>>) -> bool {
    &&& keys.len() == declared.len()
    &&& forall|i: int|
        0 <= i < keys.len() ==> (#[trigger] keys[i]) < bindings.names().len()
            && bindings.names()[keys[i] as int] == declared[i]
}

/// The names a program declares in one category, in declaration order.
pub open spec fn declared_names(program: ProgramView, category: VarCategory) -> Seq<Seq<char>> {
    match category {
        VarCategory::Block => program.block_names(),
        VarCategory::Uniform => program.uniform_names(),
        VarCategory::Texture => program.texture_names(),
    }
}

/// The first declaration of `program` that `env` leaves unanswered: blocks
/// are examined before uniforms and uniforms before textures, each list in
/// declaration order. `None` when `env` covers the program.
pub open spec fn first_unanswered(env: StorageView, program: ProgramView) -> Option<
    (VarCategory, int),
> {
    if let Some(i) = first_missing(env.blocks, program.block_names()) {
        Some((VarCategory::Block, i))
    } else if let Some(i) = first_missing(env.uniforms, program.uniform_names()) {
        Some((VarCategory::Uniform, i))
    } else if let Some(i) = first_missing(env.textures, program.texture_names()) {
        Some((VarCategory::Texture, i))
    } else {
        None
    }
}

/// The error that names the first declaration of `program` that `env` leaves
/// unanswered; `None` when `env` covers the program.
pub open spec fn unanswered(env: StorageView, program: ProgramView) -> Option<OptimizationError> {
    match first_unanswered(env, program) {
        Some((VarCategory::Block, i)) => Some(
            OptimizationError::MissingVariable(VarCategory::Block, program.blocks[i].name),
        ),
        Some((VarCategory::Uniform, i)) => Some(
            OptimizationError::MissingVariable(VarCategory::Uniform, program.uniforms[i].name),
        ),
        Some((VarCategory::Texture, i)) => Some(
            OptimizationError::MissingVariable(VarCategory::Texture, program.textures[i].name),
        ),
        None => None,
    }
}

/// Nothing is missing exactly when every declared name is held; and what is
/// reported missing is a declared name that is not held, with every name
/// declared ahead of it held.
pub proof fn lemma_first_missing<V>(available: Map<Seq<char>, V>, declared: Seq<Seq<char>>)
    ensures
        first_missing(available, declared) is None <==> has_all(available, declared),
        first_missing(available, declared) matches Some(i) ==> {
            &&& 0 <= i < declared.len()
            &&& !available.dom().contains(declared[i])
            &&& forall|j: int| 0 <= j < i ==> available.dom().contains(#[trigger] declared[j])
        },
{
    let absent = absent_from(available);
    lemma_first_none(declared, absent);
    if has_all(available, declared) {
        assert(none(declared, absent));
    }
    if none(declared, absent) {
        assert forall|i: int| 0 <= i < declared.len() implies available.dom().contains(
            #[trigger] declared[i],
        ) by {
            assert(!absent(declared[i]));
        }
    }
    if first_missing(available, declared) is Some {
        let i = first_missing(available, declared)->0;
        assert(is_first(declared, absent, i));
        assert forall|j: int| 0 <= j < i implies available.dom().contains(
            #[trigger] declared[j],
        ) by {
            assert(!absent(declared[j]));
        }
    }
}

/// An environment leaves no declaration unanswered exactly when it covers
/// the program.
pub proof fn lemma_covers(env: StorageView, program: ProgramView)
    ensures
        covers(env, program) <==> first_unanswered(env, program) is None,
        covers(env, program) <==> unanswered(env, program) is None,
{
    lemma_first_missing(env.blocks, program.block_names());
    lemma_first_missing(env.uniforms, program.uniform_names());
    lemma_first_missing(env.textures, program.texture_names());
}

/// Looks each declared name up in `bindings`, in order, and stops at the first
/// one that is absent, reporting its position.
fn locate<V: Copy, D: Named>(bindings: &Bindings<V>, declared: &Vec<D>) -> (result: Result<
    Vec<usize>,
    usize,
>)
    ensures
        match result {
            Ok(keys) => {
                &&& first_missing(bindings@, names_of(declared@)) is None
                &&& locates(*bindings, keys@, names_of(declared@))
                &&& bindings.values_at(keys@) == resolved(bindings@, names_of(declared@))
            },
            Err(i) => first_missing(bindings@, names_of(declared@)) == Some(i as int),
        },
{
    let ghost absent = absent_from(bindings@);
    let mut keys: Vec<usize> = Vec::new();
    let mut i: usize = 0;
    while i < declared.len()
        invariant
            i <= declared@.len(),
            keys@.len() == i,
            absent == absent_from(bindings@),
            forall|j: int| 0 <= j < i ==> !absent(#[trigger] names_of(declared@)[j]),
            forall|j: int|
                0 <= j < i ==> (#[trigger] keys@[j]) < bindings.names().len() && bindings.names()[keys@[j] as int]
                    == names_of(declared@)[j],
        decreases declared@.len() - i,
    {
        match bindings.find(declared[i].name()) {
            Some(key) => {
                keys.push(key);
            },
            None => {
                proof {
                    assert(absent(names_of(declared@)[i as int]));
                    lemma_first_is(names_of(declared@), absent, i as int);
                }
                return Err(i);
            },
        }
        i += 1;
    }
    proof {
        assert(none(names_of(declared@), absent));
        lemma_first_none(names_of(declared@), absent);
        use_type_invariant(bindings);
        bindings.lemma_located(keys@, names_of(declared@));
    }
    Ok(keys)
}

impl Shortcut {
    /// The shortcut has one key for each input that `program` declares.
    pub open spec fn fits(&self, program: ProgramView) -> bool {
        &&& self.blocks@.len() == program.blocks.len()
        &&& self.uniforms@.len() == program.uniforms.len()
        &&& self.textures@.len() == program.textures.len()
    }
}

impl Storage {
    /// The environment that supplies nothing.
    pub fn new() -> (storage: Self)
        ensures
            storage@.blocks == Map::<Seq<char>, BufferHandle>::empty(),
            storage@.uniforms == Map::<Seq<char>, UniformValue>::empty(),
            storage@.textures == Map::<Seq<char>, TextureBinding>::empty(),
    {
        Storage { blocks: Bindings::new(), uniforms: Bindings::new(), textures: Bindings::new() }
    }

    /// Binds the block `name` to `buffer`; the last write to a name wins.
    pub fn set_block(&mut self, name: String, buffer: BufferHandle)
        ensures
            final(self)@.blocks == old(self)@.blocks.insert(name@, buffer),
            final(self).uniforms == old(self).uniforms,
            final(self).textures == old(self).textures,
    {
        self.blocks.set(name, buffer);
    }

    /// Gives the uniform `name` the value `value`; the last write to a name
    /// wins.
    pub fn set_uniform(&mut self, name: String, value: UniformValue)
        ensures
            final(self)@.uniforms == old(self)@.uniforms.insert(name@, value),
            final(self).blocks == old(self).blocks,
            final(self).textures == old(self).textures,
    {
        self.uniforms.set(name, value);
    }

    /// Binds the texture `name` to `texture` read through `sampler`; the last
    /// write to a name wins.
    pub fn set_texture(&mut self, name: String, texture: TextureHandle, sampler: SamplerHandle)
        ensures
            final(self)@.textures == old(self)@.textures.insert(
                name@,
                TextureBinding { texture, sampler },
            ),
            final(self).blocks == old(self).blocks,
            final(self).uniforms == old(self).uniforms,
    {
        self.textures.set(name, TextureBinding { texture, sampler });
    }

    /// The buffer bound at position `key`.
    pub fn get_block(&self, key: BlockKey) -> (buffer: BufferHandle)
        requires
            key < self.blocks.names().len(),
        ensures
            buffer == self.blocks.values()[key as int],
            buffer == self@.blocks[self.blocks.names()[key as int]],
    {
        self.blocks.get(key)
    }

    /// The uniform value at position `key`.
    pub fn get_uniform(&self, key: UniformKey) -> (value: UniformValue)
        requires
            key < self.uniforms.names().len(),
        ensures
            value == self.uniforms.values()[key as int],
            value == self@.uniforms[self.uniforms.names()[key as int]],
    {
        self.uniforms.get(key)
    }

    /// The texture binding at position `key`.
    pub fn get_texture(&self, key: TextureKey) -> (binding: TextureBinding)
        requires
            key < self.textures.names().len(),
        ensures
            binding == self.textures.values()[key as int],
            binding == self@.textures[self.textures.names()[key as int]],
    {
        self.textures.get(key)
    }

    /// `cut` locates, in this environment, every input `program` declares,
    /// and so selects the value bound to each declared name.
    pub open spec fn resolves(&self, cut: Shortcut, program: ProgramView) -> bool {
        &&& locates(self.blocks, cut.blocks@, program.block_names())
        &&& locates(self.uniforms, cut.uniforms@, program.uniform_names())
        &&& locates(self.textures, cut.textures@, program.texture_names())
        &&& self.blocks.values_at(cut.blocks@) == resolved(self@.blocks, program.block_names())
        &&& self.uniforms.values_at(cut.uniforms@) == resolved(
            self@.uniforms,
            program.uniform_names(),
        )
        &&& self.textures.values_at(cut.textures@) == resolved(
            self@.textures,
            program.texture_names(),
        )
    }

    /// Every key of `cut` is a position of this environment.
    pub open spec fn admits(&self, cut: Shortcut) -> bool {
        &&& forall|i: int|
            0 <= i < cut.blocks@.len() ==> (#[trigger] cut.blocks@[i]) < self.blocks.names().len()
        &&& forall|i: int|
            0 <= i < cut.uniforms@.len() ==> (#[trigger] cut.uniforms@[i])
                < self.uniforms.names().len()
        &&& forall|i: int|
            0 <= i < cut.textures@.len() ==> (#[trigger] cut.textures@[i])
                < self.textures.names().len()
    }

    /// Matches the environment against the inputs `program` declares.
    ///
    /// Succeeds exactly when the environment supplies every declared block,
    /// uniform and texture; the shortcut then holds, per kind and in the
    /// program's order, the position of each. Otherwise the error names the
    /// first declaration left unanswered and no shortcut is produced.
    pub fn optimize(&self, program: &ProgramMeta) -> (result: Result<Shortcut, OptimizationError>)
        ensures
            result is Ok <==> covers(self@, program@),
            match result {
                Ok(cut) => cut.fits(program@) && self.admits(cut) && self.resolves(cut, program@),
                Err(error) => Some(error) == unanswered(self@, program@),
            },
    {
        proof {
            lemma_covers(self@, program@);
        }
        let blocks = match locate(&self.blocks, &program.blocks) {
            Ok(keys) => keys,
            Err(i) => {
                return Err(
                    OptimizationError::MissingVariable(
                        VarCategory::Block,
                        program.blocks[i].name.clone(),
                    ),
                );
            },
        };
        let uniforms = match locate(&self.uniforms, &program.uniforms) {
            Ok(keys) => keys,
            Err(i) => {
                return Err(
                    OptimizationError::MissingVariable(
                        VarCategory::Uniform,
                        program.uniforms[i].name.clone(),
                    ),
                );
            },
        };
        let textures = match locate(&self.textures, &program.textures) {
            Ok(keys) => keys,
            Err(i) => {
                return Err(
                    OptimizationError::MissingVariable(
                        VarCategory::Texture,
                        program.textures[i].name.clone(),
                    ),
                );
            },
        };
        Ok(Shortcut { blocks, uniforms, textures })
    }

    /// Whether `shortcut` has one key for each input that `program` declares.
    pub fn is_fit(&self, shortcut: &Shortcut, program: &ProgramMeta) -> (fit: bool)
        ensures
            fit == shortcut.fits(program@),
    {
        shortcut.blocks.len() == program.blocks.len() && shortcut.uniforms.len()
            == program.uniforms.len() && shortcut.textures.len() == program.textures.len()
    }
}

} // verus!
