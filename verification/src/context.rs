//! The registry of loaded modules: definitions and enums, found by name.

use std::collections::HashMap;
use vstd::prelude::*;
use vstd::string::*;
use crate::ast::{Block, BlockView, Definition, Statement, StatementView};
use crate::dictionary::Dictionary;
use crate::error::{ErrorView, LoomError, UndefinedKind};
use crate::text::texts;
use crate::types::{EnumDef, LoomValue, Position};

verus! {

broadcast use vstd::std_specs::hash::group_hash_axioms;

/// Identity of a module: the 128 bits of its UUID.
pub type ModuleId = u128;

/// Identity of a definition inside its module.
pub type DefinitionId = u128;

/// Identity of an enum inside its module.
pub type EnumId = u128;

/// What a module takes from another one.
#[derive(Debug, PartialEq)]
pub enum ImportKind {
    ImportAll,
    ImportDefinition(String),
}

/// One loaded file.
#[derive(Debug, PartialEq)]
pub struct Module {
    pub definitions: HashMap<DefinitionId, Definition>,
    pub enums: HashMap<EnumId, EnumDef>,
    pub variables: Dictionary<LoomValue>,
    /// The files that the module imports, each with what it takes from it.
    pub dependencies: Vec<(String, Vec<ImportKind>)>,
}

impl Module {
    pub fn new() -> (r: Self)
        ensures
            r.definitions@ == Map::<DefinitionId, Definition>::empty(),
            r.enums@ == Map::<EnumId, EnumDef>::empty(),
            r.variables@ == Map::<Seq<char>, LoomValue>::empty(),
            r.dependencies@.len() == 0,
    {
        Module {
            definitions: HashMap::new(),
            enums: HashMap::new(),
            variables: Dictionary::new(),
            dependencies: Vec::new(),
        }
    }
}

/// All loaded modules, with an index from names to the definitions and enums
/// they stand for. Execution only reads it.
#[derive(Debug)]
pub struct LoomContext {
    modules: HashMap<ModuleId, Module>,
    definitions_ref: Dictionary<(ModuleId, DefinitionId)>,
    enums_def_ref: Dictionary<(ModuleId, EnumId)>,
    /// Import graph: each file with what it imports.
    pub dependencies: Vec<(String, Vec<ImportKind>)>,
}

impl LoomContext {
    /// The loaded modules.
    pub closed spec fn modules(&self) -> Map<ModuleId, Module> {
        self.modules@
    }

    /// The index of definitions: each name with the module and the identity
    /// of the definition it stands for.
    pub closed spec fn definition_index(&self) -> Map<Seq<char>, (ModuleId, DefinitionId)> {
        self.definitions_ref@
    }

    /// The indexed names of definitions, in the order in which they were indexed.
    pub closed spec fn definition_names(&self) -> Seq<Seq<char>> {
        self.definitions_ref.keys()
    }

    /// The index of enums.
    pub closed spec fn enum_index(&self) -> Map<Seq<char>, (ModuleId, EnumId)> {
        self.enums_def_ref@
    }

    /// The definition that `name` stands for.
    pub open spec fn definition_named(&self, name: Seq<char>) -> Option<Definition> {
        if self.definition_index().contains_key(name) {
            let (module, id) = self.definition_index()[name];
            if self.modules().contains_key(module) && self.modules()[module].definitions@.contains_key(
                id,
            ) {
                Some(self.modules()[module].definitions@[id])
            } else {
                None
            }
        } else {
            None
        }
    }

    /// The enum that `name` stands for.
    pub open spec fn enum_named(&self, name: Seq<char>) -> Option<EnumDef> {
        if self.enum_index().contains_key(name) {
            let (module, id) = self.enum_index()[name];
            if self.modules().contains_key(module) && self.modules()[module].enums@.contains_key(id) {
                Some(self.modules()[module].enums@[id])
            } else {
                None
            }
        } else {
            None
        }
    }

    /// The variables of the module that holds the definition called `name`.
    pub open spec fn variables_of(&self, name: Seq<char>) -> Option<Dictionary<LoomValue>> {
        if self.definition_index().contains_key(name) && self.modules().contains_key(
            self.definition_index()[name].0,
        ) {
            Some(self.modules()[self.definition_index()[name].0].variables)
        } else {
            None
        }
    }

    /// Every indexed name stands for a definition or an enum that is there.
    pub open spec fn well_formed(&self) -> bool {
        &&& forall|name: Seq<char>| #[trigger]
            self.definition_index().contains_key(name) ==> self.definition_named(name) is Some
        &&& forall|name: Seq<char>| #[trigger]
            self.enum_index().contains_key(name) ==> self.enum_named(name) is Some
    }

    pub fn new() -> (r: Self)
        ensures
            r.modules() == Map::<ModuleId, Module>::empty(),
            r.definition_index() == Map::<Seq<char>, (ModuleId, DefinitionId)>::empty(),
            r.definition_names() == Seq::<Seq<char>>::empty(),
            r.enum_index() == Map::<Seq<char>, (ModuleId, EnumId)>::empty(),
            r.well_formed(),
    {
        LoomContext {
            modules: HashMap::new(),
            definitions_ref: Dictionary::new(),
            enums_def_ref: Dictionary::new(),
            dependencies: Vec::new(),
        }
    }

    /// Loads a module under an identity that is not taken yet. Returns
    /// whether it was loaded; the registry is unchanged where it was not.
    pub fn add_module(&mut self, id: ModuleId, module: Module) -> (r: bool)
        requires
            old(self).well_formed(),
        ensures
            r == !old(self).modules().contains_key(id),
            r ==> final(self).modules() == old(self).modules().insert(id, module),
            !r ==> final(self).modules() == old(self).modules(),
            final(self).definition_index() == old(self).definition_index(),
            final(self).definition_names() == old(self).definition_names(),
            final(self).enum_index() == old(self).enum_index(),
            final(self).well_formed(),
            forall|name: Seq<char>| final(self).definition_named(name) == old(self).definition_named(name),
            forall|name: Seq<char>| final(self).enum_named(name) == old(self).enum_named(name),
    {
        if self.modules.contains_key(&id) {
            return false;
        }
        let ghost before = *self;
        self.modules.insert(id, module);
        proof {
            assert forall|name: Seq<char>| self.definition_named(name) == before.definition_named(
                name,
            ) by {
                if before.definition_index().contains_key(name) {
                    assert(before.definition_named(name) is Some);
                }
            }
            assert forall|name: Seq<char>| self.enum_named(name) == before.enum_named(name) by {
                if before.enum_index().contains_key(name) {
                    assert(before.enum_named(name) is Some);
                }
            }
        }
        true
    }

    /// Makes `name` stand for the definition `id` of `module`. Fails, and
    /// changes nothing, where the name is taken or no such definition is loaded.
    pub fn index_definition(&mut self, name: &str, module: ModuleId, id: DefinitionId) -> (r: bool)
        requires
            old(self).well_formed(),
        ensures
            r == (!old(self).definition_index().contains_key(name@) && old(self).modules().contains_key(
                module,
            ) && old(self).modules()[module].definitions@.contains_key(id)),
            r ==> final(self).definition_index() == old(self).definition_index().insert(
                name@,
                (module, id),
            ),
            r ==> final(self).definition_names() == old(self).definition_names().push(name@),
            !r ==> final(self).definition_index() == old(self).definition_index(),
            !r ==> final(self).definition_names() == old(self).definition_names(),
            final(self).modules() == old(self).modules(),
            final(self).enum_index() == old(self).enum_index(),
            final(self).well_formed(),
    {
        if self.definitions_ref.contains_key(name) {
            return false;
        }
        match self.modules.get(&module) {
            Some(m) => {
                if !m.definitions.contains_key(&id) {
                    return false;
                }
            },
            None => {
                return false;
            },
        }
        let ghost before = *self;
        self.definitions_ref.insert(String::from_str(name), (module, id));
        proof {
            assert forall|n: Seq<char>| #[trigger]
                self.definition_index().contains_key(n) implies self.definition_named(n) is Some by {
                if n != name@ {
                    assert(before.definition_index().contains_key(n));
                    assert(before.definition_named(n) is Some);
                }
            }
            assert forall|n: Seq<char>| #[trigger]
                self.enum_index().contains_key(n) implies self.enum_named(n) is Some by {
                assert(before.enum_named(n) is Some);
            }
        }
        true
    }

    /// Makes `name` stand for the enum `id` of `module`. Fails, and changes
    /// nothing, where the name is taken or no such enum is loaded.
    pub fn index_enum(&mut self, name: &str, module: ModuleId, id: EnumId) -> (r: bool)
        requires
            old(self).well_formed(),
        ensures
            r == (!old(self).enum_index().contains_key(name@) && old(self).modules().contains_key(
                module,
            ) && old(self).modules()[module].enums@.contains_key(id)),
            r ==> final(self).enum_index() == old(self).enum_index().insert(name@, (module, id)),
            !r ==> final(self).enum_index() == old(self).enum_index(),
            final(self).modules() == old(self).modules(),
            final(self).definition_index() == old(self).definition_index(),
            final(self).definition_names() == old(self).definition_names(),
            final(self).well_formed(),
    {
        if self.enums_def_ref.contains_key(name) {
            return false;
        }
        match self.modules.get(&module) {
            Some(m) => {
                if !m.enums.contains_key(&id) {
                    return false;
                }
            },
            None => {
                return false;
            },
        }
        let ghost before = *self;
        self.enums_def_ref.insert(String::from_str(name), (module, id));
        proof {
            assert forall|n: Seq<char>| #[trigger]
                self.enum_index().contains_key(n) implies self.enum_named(n) is Some by {
                if n != name@ {
                    assert(before.enum_index().contains_key(n));
                    assert(before.enum_named(n) is Some);
                }
            }
            assert forall|n: Seq<char>| #[trigger]
                self.definition_index().contains_key(n) implies self.definition_named(n) is Some by {
                assert(before.definition_named(n) is Some);
            }
        }
        true
    }

    /// No function can be defined by the user yet, so every call fails: the
    /// name is reported as an undefined function at `position`.
    pub fn call_function(&self, name: &str, args: Vec<LoomValue>, position: Position) -> (r: Result<
        LoomValue,
        LoomError,
    >)
        ensures
            r is Err,
            r->Err_0@ == (ErrorView::UndefinedError {
                name: name@,
                kind: UndefinedKind::Function,
                position: position@,
            }),
    {
        Err(LoomError::undefined(name, UndefinedKind::Function, position))
    }

    /// The definition called `name`.
    pub fn find_definition(&self, name: &str) -> (r: Option<&Definition>)
        ensures
            match r {
                Some(d) => self.definition_named(name@) == Some(*d),
                None => self.definition_named(name@) is None,
            },
            self.well_formed() && self.definition_index().contains_key(name@) ==> r is Some,
    {
        match self.definitions_ref.get(name) {
            Some(place) => {
                match self.modules.get(&place.0) {
                    Some(module) => module.definitions.get(&place.1),
                    None => None,
                }
            },
            None => None,
        }
    }

    /// The enum called `name`.
    pub fn find_enum(&self, name: &str) -> (r: Option<&EnumDef>)
        ensures
            match r {
                Some(e) => self.enum_named(name@) == Some(*e),
                None => self.enum_named(name@) is None,
            },
    {
        match self.enums_def_ref.get(name) {
            Some(place) => {
                match self.modules.get(&place.0) {
                    Some(module) => module.enums.get(&place.1),
                    None => None,
                }
            },
            None => None,
        }
    }

    /// The variables of the module that holds the definition called `name`.
    pub fn get_variables(&self, name: &str) -> (r: Option<&Dictionary<LoomValue>>)
        ensures
            match r {
                Some(v) => self.variables_of(name@) == Some(*v),
                None => self.variables_of(name@) is None,
            },
    {
        match self.definitions_ref.get(name) {
            Some(place) => {
                match self.modules.get(&place.0) {
                    Some(module) => Some(&module.variables),
                    None => None,
                }
            },
            None => None,
        }
    }

    /// The names under which definitions can be found, in the order in which
    /// they were indexed.
    pub fn known_definitions(&self) -> (r: Vec<String>)
        ensures
            texts(r@) == self.definition_names(),
    {
        let mut out: Vec<String> = Vec::new();
        let mut i: usize = 0;
        while i < self.definitions_ref.len()
            invariant
                i <= self.definitions_ref.keys().len(),
                out.len() == i,
                forall|j: int| 0 <= j < i ==> out@[j]@ == self.definitions_ref.keys()[j],
            decreases self.definitions_ref.keys().len() - i,
        {
            out.push(self.definitions_ref.key_at(i).clone());
            i += 1;
        }
        assert(texts(out@) =~= self.definition_names());
        out
    }
}

/// The message for a call of a definition that no name stands for.
pub open spec fn undefined_reference(name: Seq<char>) -> Seq<char> {
    "Undefined reference: "@ + name
}

/// The messages for those of the first `n` statements that call a
/// definition that no name stands for, in the order of the statements.
pub open spec fn undefined_references(
    statements: Seq<StatementView>,
    n: nat,
    index: Map<Seq<char>, (ModuleId, DefinitionId)>,
) -> Seq<Seq<char>>
    decreases n,
{
    if n == 0 || n > statements.len() {
        Seq::empty()
    } else {
        let before = undefined_references(statements, (n - 1) as nat, index);
        match statements[n - 1] {
            StatementView::Call { name, .. } => if index.contains_key(name) {
                before
            } else {
                before.push(undefined_reference(name))
            },
            StatementView::Command { .. } => before,
        }
    }
}

/// The messages for the calls of unknown definitions in the first `n` blocks.
pub open spec fn undefined_in_body(
    body: Seq<BlockView>,
    n: nat,
    index: Map<Seq<char>, (ModuleId, DefinitionId)>,
) -> Seq<Seq<char>>
    decreases n,
{
    if n == 0 || n > body.len() {
        Seq::empty()
    } else {
        undefined_in_body(body, (n - 1) as nat, index) + undefined_references(
            body[n - 1].statements,
            body[n - 1].statements.len(),
            index,
        )
    }
}

impl LoomContext {
    /// Adds to `errors` a message for each call in the block of a definition
    /// that no name stands for.
    pub fn validate_block_references(&self, block: &Block, errors: &mut Vec<String>)
        ensures
            texts(final(errors)@) == texts(old(errors)@) + undefined_references(
                block@.statements,
                block@.statements.len(),
                self.definition_index(),
            ),
    {
        let ghost start = texts(errors@);
        let ghost statements = block@.statements;
        let mut i: usize = 0;
        assert(start + Seq::<Seq<char>>::empty() =~= start);
        while i < block.statements.len()
            invariant
                i <= block.statements.len(),
                statements == block@.statements,
                texts(errors@) == start + undefined_references(
                    statements,
                    i as nat,
                    self.definition_index(),
                ),
            decreases block.statements.len() - i,
        {
            assert(statements[i as int] == block.statements@[i as int]@);
            match &block.statements[i] {
                Statement::Call { name, .. } => {
                    if !self.definitions_ref.contains_key(name.as_str()) {
                        let mut message = String::from_str("Undefined reference: ");
                        message.append(name.as_str());
                        proof {
                            let before = errors@;
                            assert(texts(before.push(message)) =~= texts(before).push(message@));
                            assert(start + undefined_references(
                                statements,
                                i as nat,
                                self.definition_index(),
                            ).push(message@) =~= (start + undefined_references(
                                statements,
                                i as nat,
                                self.definition_index(),
                            )).push(message@));
                        }
                        errors.push(message);
                    }
                },
                Statement::Command { .. } => {},
            }
            i += 1;
        }
    }

    /// Adds to `errors` a message for each call in the body of the
    /// definition that no name stands for.
    pub fn validate_definition_references(&self, definition: &Definition, errors: &mut Vec<String>)
        ensures
            texts(final(errors)@) == texts(old(errors)@) + undefined_in_body(
                definition@.body,
                definition@.body.len(),
                self.definition_index(),
            ),
    {
        let ghost start = texts(errors@);
        let ghost body = definition@.body;
        let mut i: usize = 0;
        assert(start + Seq::<Seq<char>>::empty() =~= start);
        while i < definition.body.len()
            invariant
                i <= definition.body.len(),
                body == definition@.body,
                texts(errors@) == start + undefined_in_body(body, i as nat, self.definition_index()),
            decreases definition.body.len() - i,
        {
            assert(body[i as int] == definition.body@[i as int]@);
            let ghost before = texts(errors@);
            self.validate_block_references(&definition.body[i], errors);
            proof {
                let added = undefined_references(
                    body[i as int].statements,
                    body[i as int].statements.len(),
                    self.definition_index(),
                );
                assert(before + added =~= start + (undefined_in_body(
                    body,
                    i as nat,
                    self.definition_index(),
                ) + added));
            }
            i += 1;
        }
    }
}

impl Default for LoomContext {
    fn default() -> (r: Self)
        ensures
            r.well_formed(),
            r.definition_names() == Seq::<Seq<char>>::empty(),
    {
        LoomContext::new()
    }
}

} // verus!
