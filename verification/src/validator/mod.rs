pub mod helpers;
pub mod validate;

use vstd::prelude::*;
use crate::dict::Dict;
use crate::parser::ast::{Expr, Parameter, Symbol, Type, clone_symbol};
use crate::text::to_owned_string;
use crate::translations::validator_messages::ValidatorError;

verus! {

/// What the validator knows of a function.
#[derive(Debug)]
pub struct FunctionInfo {
    pub name: String,
    pub return_type: Option<Type>,
    pub parameters: Vec<Parameter>,
    pub is_allocator_used: bool,
}

/// What the validator knows of a method of a struct or union type.
#[derive(Debug)]
pub struct MethodInfo {
    pub name: String,
    pub return_type: Option<Type>,
    pub parameters: Vec<Parameter>,
    pub is_allocator_used: bool,
}

/// A declared struct or union type: its generated name, fields and methods.
pub type TypeDef = (String, Vec<(String, Type)>, Vec<MethodInfo>);

/// The validator's state: nested scopes of variables and the declared
/// functions, types and enums.
pub struct ValidatorContext {
    pub scopes: Vec<Dict<Symbol>>,
    pub functions: Dict<FunctionInfo>,
    pub struct_defs: Dict<TypeDef>,
    pub union_defs: Dict<TypeDef>,
    pub enum_defs: Dict<Vec<String>>,
    pub current_function: Option<String>,
    pub current_return: Option<Box<Expr>>,
    pub current_struct: Option<String>,
    pub is_allocator_used: bool,
}

/// The symbol a name refers to in the given scopes: the one of the innermost
/// scope that declares it.
pub open spec fn lookup_spec(scopes: Seq<Map<Seq<char>, Symbol>>, name: Seq<char>) -> Option<Symbol>
    decreases scopes.len(),
{
    if scopes.len() == 0 {
        None
    } else if scopes.last().dom().contains(name) {
        Some(scopes.last()[name])
    } else {
        lookup_spec(scopes.drop_last(), name)
    }
}

/// A declaration in the innermost scope is what its name refers to
/// afterwards.
pub proof fn lemma_declare_then_lookup(scopes: Seq<Map<Seq<char>, Symbol>>, name: Seq<char>, symbol: Symbol)
    requires
        scopes.len() > 0,
    ensures
        lookup_spec(scopes.update(scopes.len() - 1, scopes.last().insert(name, symbol)), name) == Some(symbol),
{
    let s2 = scopes.update(scopes.len() - 1, scopes.last().insert(name, symbol));
    assert(s2.last() == scopes.last().insert(name, symbol));
}

/// A declaration leaves what other names refer to unchanged.
pub proof fn lemma_declare_keeps_others(scopes: Seq<Map<Seq<char>, Symbol>>, name: Seq<char>, symbol: Symbol,
    other: Seq<char>)
    requires
        scopes.len() > 0,
        other != name,
    ensures
        lookup_spec(scopes.update(scopes.len() - 1, scopes.last().insert(name, symbol)), other)
            == lookup_spec(scopes, other),
{
    let s2 = scopes.update(scopes.len() - 1, scopes.last().insert(name, symbol));
    assert(s2.drop_last() =~= scopes.drop_last());
}

/// Opening an empty scope changes what no name refers to.
pub proof fn lemma_push_scope_keeps_lookup(scopes: Seq<Map<Seq<char>, Symbol>>, name: Seq<char>)
    ensures
        lookup_spec(scopes.push(Map::empty()), name) == lookup_spec(scopes, name),
{
    assert(scopes.push(Map::empty()).drop_last() =~= scopes);
}

/// Closing a scope brings back what names referred to before it was opened,
/// whatever was declared in it.
pub proof fn lemma_pop_scope_restores(scopes: Seq<Map<Seq<char>, Symbol>>, inner: Map<Seq<char>, Symbol>,
    name: Seq<char>)
    ensures
        lookup_spec(scopes.push(inner).drop_last(), name) == lookup_spec(scopes, name),
{
    assert(scopes.push(inner).drop_last() =~= scopes);
}

/// Opening a scope, declaring a name in it and closing it again brings the
/// scopes back to what they were (stated over the contracts of
/// `push_scope`, `declare_variable` and `pop_scope`).
pub proof fn lemma_push_declare_pop(c0: ValidatorContext, c1: ValidatorContext, c2: ValidatorContext,
    c3: ValidatorContext, name: Seq<char>, symbol: Symbol)
    requires
        c1.scope_maps() == c0.scope_maps().push(Map::empty()),
        c1.scopes@.len() == c0.scopes@.len() + 1,
        c2.scopes@.len() == c1.scopes@.len(),
        c2.scope_maps() == c1.scope_maps().update(c1.scopes@.len() - 1, c1.scope_maps().last().insert(name, symbol)),
        c3.scopes@ == c2.scopes@.drop_last(),
    ensures
        c3.scope_maps() == c0.scope_maps(),
        forall|n: Seq<char>| #[trigger] c3.lookup(n) == c0.lookup(n),
{
    assert(c3.scope_maps() =~= c2.scope_maps().drop_last());
    assert(c3.scope_maps() =~= c0.scope_maps());
}

/// Every function, struct, union and enum declared in `a` is still declared
/// in `b`.
pub open spec fn keeps_declarations(a: ValidatorContext, b: ValidatorContext) -> bool {
    &&& forall|k: Seq<char>| #![trigger a.functions.has(k)] #![trigger b.functions.has(k)] a.functions.has(k) ==> b.functions.has(k)
    &&& forall|k: Seq<char>| #![trigger a.struct_defs.has(k)] #![trigger b.struct_defs.has(k)] a.struct_defs.has(k) ==> b.struct_defs.has(k)
    &&& forall|k: Seq<char>| #![trigger a.union_defs.has(k)] #![trigger b.union_defs.has(k)] a.union_defs.has(k) ==> b.union_defs.has(k)
    &&& forall|k: Seq<char>| #![trigger a.enum_defs.has(k)] #![trigger b.enum_defs.has(k)] a.enum_defs.has(k) ==> b.enum_defs.has(k)
}

/// Scopes from position `k` on that do not hold `name` leave what it refers
/// to to the scopes before them.
pub proof fn lemma_lookup_suffix_free(scopes: Seq<Map<Seq<char>, Symbol>>, k: int, name: Seq<char>)
    requires
        0 <= k <= scopes.len(),
        forall|j: int| k <= j < scopes.len() ==> !(#[trigger] scopes[j]).dom().contains(name),
    ensures
        lookup_spec(scopes, name) == lookup_spec(scopes.subrange(0, k), name),
    decreases scopes.len() - k,
{
    if k < scopes.len() {
        assert(!scopes.last().dom().contains(name));
        lemma_lookup_suffix_free(scopes.drop_last(), k, name);
        assert(scopes.drop_last().subrange(0, k) =~= scopes.subrange(0, k));
    } else {
        assert(scopes.subrange(0, k) =~= scopes);
    }
}

impl ValidatorContext {
    /// Every table keeps each key once.
    pub open spec fn wf(&self) -> bool {
        &&& forall|i: int| 0 <= i < self.scopes@.len() ==> (#[trigger] self.scopes@[i]).wf()
        &&& self.functions.wf()
        &&& self.struct_defs.wf()
        &&& self.union_defs.wf()
        &&& self.enum_defs.wf()
    }

    /// The scopes, innermost last, as maps.
    pub open spec fn scope_maps(&self) -> Seq<Map<Seq<char>, Symbol>> {
        self.scopes@.map_values(|d: Dict<Symbol>| d.as_map())
    }

    /// The symbol `name` refers to.
    pub open spec fn lookup(&self, name: Seq<char>) -> Option<Symbol> {
        lookup_spec(self.scope_maps(), name)
    }

    /// A fresh context: one empty scope and no declarations (`new`).
    pub fn new() -> (c: Self)
        ensures
            c.wf(),
            c.scopes@.len() == 1,
            c.scope_maps() =~= seq![Map::<Seq<char>, Symbol>::empty()],
            c.functions.as_map() =~= Map::empty(),
            c.struct_defs.as_map() =~= Map::empty(),
            c.union_defs.as_map() =~= Map::empty(),
            c.enum_defs.as_map() =~= Map::empty(),
            c.current_function is None,
            c.current_return is None,
            c.current_struct is None,
            !c.is_allocator_used,
    {
        let mut scopes: Vec<Dict<Symbol>> = Vec::new();
        scopes.push(Dict::new());
        let c = ValidatorContext {
            scopes,
            functions: Dict::new(),
            struct_defs: Dict::new(),
            union_defs: Dict::new(),
            enum_defs: Dict::new(),
            current_function: None,
            current_return: None,
            current_struct: None,
            is_allocator_used: false,
        };
        assert(c.scope_maps() =~= seq![Map::<Seq<char>, Symbol>::empty()]);
        c
    }

    /// Opens an inner, empty scope (`push_scope`).
    pub fn push_scope(&mut self)
        requires
            old(self).wf(),
        ensures
            final(self).wf(),
            final(self).scopes@ == old(self).scopes@.push(final(self).scopes@.last()),
            final(self).scope_maps() =~= old(self).scope_maps().push(Map::empty()),
            final(self).functions == old(self).functions,
            final(self).struct_defs == old(self).struct_defs,
            final(self).union_defs == old(self).union_defs,
            final(self).enum_defs == old(self).enum_defs,
            final(self).current_function == old(self).current_function,
            final(self).current_struct == old(self).current_struct,
            final(self).is_allocator_used == old(self).is_allocator_used,
    {
        self.scopes.push(Dict::new());
        assert(self.scope_maps() =~= old(self).scope_maps().push(Map::empty()));
    }

    /// Closes the innermost scope (`pop_scope`); without scopes nothing changes.
    pub fn pop_scope(&mut self)
        requires
            old(self).wf(),
        ensures
            final(self).wf(),
            old(self).scopes@.len() > 0 ==> final(self).scopes@ == old(self).scopes@.drop_last(),
            old(self).scopes@.len() == 0 ==> final(self).scopes@ == old(self).scopes@,
            final(self).functions == old(self).functions,
            final(self).struct_defs == old(self).struct_defs,
            final(self).union_defs == old(self).union_defs,
            final(self).enum_defs == old(self).enum_defs,
            final(self).current_function == old(self).current_function,
            final(self).current_struct == old(self).current_struct,
            final(self).is_allocator_used == old(self).is_allocator_used,
    {
        let _ = self.scopes.pop();
        assert(old(self).scopes@.len() > 0 ==> self.scopes@ =~= old(self).scopes@.drop_last());
    }

    /// Declares `name` in the innermost scope, replacing an earlier
    /// declaration there (`declare_variable`); without scopes nothing changes.
    pub fn declare_variable(&mut self, name: String, symbol: Symbol)
        requires
            old(self).wf(),
        ensures
            final(self).wf(),
            final(self).scopes@.len() == old(self).scopes@.len(),
            old(self).scopes@.len() > 0 ==> final(self).scope_maps()
                =~= old(self).scope_maps().update(old(self).scopes@.len() - 1,
                    old(self).scope_maps().last().insert(name@, symbol)),
            old(self).scopes@.len() > 0 ==> forall|i: int| 0 <= i < old(self).scopes@.len() - 1
                ==> #[trigger] final(self).scopes@[i] == old(self).scopes@[i],
            old(self).scopes@.len() == 0 ==> final(self).scopes@ == old(self).scopes@,
            final(self).functions == old(self).functions,
            final(self).struct_defs == old(self).struct_defs,
            final(self).union_defs == old(self).union_defs,
            final(self).enum_defs == old(self).enum_defs,
            final(self).current_function == old(self).current_function,
            final(self).current_struct == old(self).current_struct,
            final(self).is_allocator_used == old(self).is_allocator_used,
    {
        let n = self.scopes.len();
        if n > 0 {
            let mut scope = self.scopes.pop().unwrap();
            scope.insert(name, symbol);
            self.scopes.push(scope);
            proof {
                assert forall|i: int| 0 <= i < n - 1 implies #[trigger] self.scopes@[i] == old(self).scopes@[i] by {}
                assert(self.scope_maps() =~= old(self).scope_maps().update(n - 1,
                    old(self).scope_maps().last().insert(name@, symbol)));
            }
        }
    }

    /// The symbol `name` refers to: the innermost declaration (`lookup_variable`).
    pub fn lookup_variable(&self, name: &str) -> (r: Option<Symbol>)
        requires
            self.wf(),
        ensures
            r == self.lookup(name@),
    {
        let mut i = self.scopes.len();
        assert(self.scope_maps().subrange(0, i as int) =~= self.scope_maps());
        while i > 0
            invariant
                self.wf(),
                i <= self.scopes@.len(),
                lookup_spec(self.scope_maps(), name@) == lookup_spec(self.scope_maps().subrange(0, i as int), name@),
            decreases i,
        {
            let ghost sub = self.scope_maps().subrange(0, i as int);
            assert(sub.drop_last() =~= self.scope_maps().subrange(0, i - 1));
            match self.scopes[i - 1].get(name) {
                Some(symbol) => {
                    return Some(clone_symbol(symbol));
                },
                None => {},
            }
            i = i - 1;
        }
        None
    }


    /// Whether `name` is a variant of some declared enum.
    pub open spec fn is_any_variant(&self, name: Seq<char>) -> bool {
        exists|i: int| 0 <= i < self.enum_defs.entries@.len()
            && (#[trigger] self.enum_defs.entries@[i]).1@.map_values(|v: String| v@).contains(name)
    }

    /// Whether a struct, union or enum of this name is declared.
    pub open spec fn knows_type(&self, name: Seq<char>) -> bool {
        self.struct_defs.has(name) || self.union_defs.has(name) || self.enum_defs.has(name)
    }

    /// Whether `name` is a variant of some declared enum.
    pub fn is_enum_variant(&self, name: &str) -> (b: bool)
        ensures
            b == self.is_any_variant(name@),
    {
        let mut i: usize = 0;
        while i < self.enum_defs.entries.len()
            invariant
                i <= self.enum_defs.entries@.len(),
                forall|j: int| 0 <= j < i ==>
                    !(#[trigger] self.enum_defs.entries@[j]).1@.map_values(|v: String| v@).contains(name@),
            decreases self.enum_defs.entries@.len() - i,
        {
            if crate::validator::helpers::contains_name(&self.enum_defs.entries[i].1, name) {
                return true;
            }
            i = i + 1;
        }
        false
    }

    /// Checks that a type name used in a signature is declared.
    pub fn validate_user_type(&self, name: &str) -> (r: Result<(), ValidatorError>)
        requires
            self.wf(),
        ensures
            r is Ok <==> self.knows_type(name@),
            r is Err ==> (r matches Err(ValidatorError::UnknownType(n)) && n@ == name@),
    {
        if self.struct_defs.contains_key(name) || self.union_defs.contains_key(name)
            || self.enum_defs.contains_key(name) {
            Ok(())
        } else {
            Err(ValidatorError::UnknownType(to_owned_string(name)))
        }
    }


    /// Marks the symbol `name` refers to as used and gives it back.
    pub fn mark_used(&mut self, name: &str) -> (r: Option<Symbol>)
        requires
            old(self).wf(),
        ensures
            final(self).wf(),
            r is None <==> old(self).lookup(name@) is None,
            r matches Some(s) ==> (old(self).lookup(name@) matches Some(s0)
                && s == Symbol { is_used: true, ..s0 }),
            final(self).scopes@.len() == old(self).scopes@.len(),
            final(self).functions == old(self).functions,
            final(self).struct_defs == old(self).struct_defs,
            final(self).union_defs == old(self).union_defs,
            final(self).enum_defs == old(self).enum_defs,
            final(self).current_function == old(self).current_function,
            final(self).current_struct == old(self).current_struct,
            final(self).is_allocator_used == old(self).is_allocator_used,
            r matches Some(s) ==> final(self).lookup(name@) == Some(s),
    {
        let mut i = self.scopes.len();
        assert(self.scope_maps().subrange(0, i as int) =~= self.scope_maps());
        while i > 0
            invariant
                self.wf(),
                self == old(self),
                i <= self.scopes@.len(),
                lookup_spec(self.scope_maps(), name@) == lookup_spec(self.scope_maps().subrange(0, i as int), name@),
                forall|j: int| i <= j < self.scopes@.len() ==> !(#[trigger] self.scope_maps()[j]).dom().contains(name@),
            decreases i,
        {
            let ghost sub = self.scope_maps().subrange(0, i as int);
            assert(sub.drop_last() =~= self.scope_maps().subrange(0, i - 1));
            let ghost maps0 = self.scope_maps();
            let found = match self.scopes[i - 1].get(name) {
                Some(symbol) => Some(clone_symbol(symbol)),
                None => None,
            };
            match found {
                Some(mut sym) => {
                    sym.is_used = true;
                    let result = clone_symbol(&sym);
                    let key = to_owned_string(name);
                    let mut scope = self.scopes.remove(i - 1);
                    let ghost symv = sym;
                    scope.insert(key, sym);
                    self.scopes.insert(i - 1, scope);
                    proof {
                        let maps1 = self.scope_maps();
                        assert(maps1 =~= maps0.update(i - 1, maps0[i - 1].insert(name@, symv)));
                        lemma_lookup_suffix_free(maps1, i as int, name@);
                        assert(maps1.subrange(0, i as int).last() == maps0[i - 1].insert(name@, symv));
                        assert forall|j: int| 0 <= j < self.scopes@.len() implies (#[trigger] self.scopes@[j]).wf() by {
                            if j != i - 1 {
                                assert(self.scopes@[j] == old(self).scopes@[j]);
                            }
                        }
                    }
                    return Some(result);
                },
                None => {},
            }
            i = i - 1;
        }
        None
    }

    /// Records a function under its name (`declare_function`).
    pub fn declare_function(&mut self, func: FunctionInfo)
        requires
            old(self).wf(),
        ensures
            final(self).wf(),
            final(self).functions.as_map() =~= old(self).functions.as_map().insert(func.name@, func),
            final(self).scopes == old(self).scopes,
            final(self).struct_defs == old(self).struct_defs,
            final(self).union_defs == old(self).union_defs,
            final(self).enum_defs == old(self).enum_defs,
            final(self).current_function == old(self).current_function,
            final(self).current_struct == old(self).current_struct,
            final(self).is_allocator_used == old(self).is_allocator_used,
    {
        let key = func.name.clone();
        self.functions.insert(key, func);
    }
}

} // verus!
