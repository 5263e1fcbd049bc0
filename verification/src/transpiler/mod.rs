pub mod builtinfunctions;
pub mod codegen;
pub mod decl;
pub mod helpers;
pub mod readiness;
pub mod struct_def;
pub mod transpile;
pub mod union_def;

use vstd::prelude::*;
use crate::dict::Dict;
use crate::parser::ast::Program;
use crate::text::{push_str, str_eq, to_owned_string};
use crate::transpiler::codegen::main_body::{generate_main_body, main_lines, main_ready, main_transpiled};
use crate::transpiler::codegen::prelude::{generate_imports, imports_text};
use crate::transpiler::codegen::top_level::{def_head, def_lines, generate_top_level_defs, top_level_ready};
use crate::transpiler::codegen::utils_fn::{generate_util_functions, util_text};
use crate::transpiler::transpile::ready;

verus! {

/// The generator's state: the imports asked for, the enums and structs
/// seen so far, and which helpers and resources the generated program needs;
/// `enums_declared` counts the enum declarations generated so far.
pub struct TranspileContext {
    pub enums_declared: Ghost<nat>,
    pub imports: Vec<String>,
    pub current_struct: Option<String>,
    pub needs_allocator: bool,
    pub uses_stdout: bool,
    pub used_min_fn: bool,
    pub used_max_fn: bool,
    pub enum_defs: Dict<Vec<String>>,
    pub used_input_fn: bool,
    pub cleanup_statements: Vec<String>,
    pub used_sum_fn: bool,
    pub used_split_n_fn: bool,
    pub struct_defs: Dict<Vec<String>>,
    pub used_split_auto_fn: bool,
    pub used_split_alloc_fn: bool,
    pub is_find_method: bool,
    pub is_used_self: bool,
    pub is_used_allocator: bool,
}

/// The texts of a list of strings.
pub open spec fn texts(v: Seq<String>) -> Seq<Seq<char>> {
    v.map_values(|s: String| s@)
}

impl TranspileContext {
    /// The imports hold no text twice, and the tables keep each key once.
    pub open spec fn wf(&self) -> bool {
        &&& texts(self.imports@).no_duplicates()
        &&& self.enum_defs.wf()
        &&& self.struct_defs.wf()
    }

    /// The set of import lines asked for.
    pub open spec fn import_set(&self) -> Set<Seq<char>> {
        texts(self.imports@).to_set()
    }

    /// Whether `name` is a variant of an enum seen so far.
    pub open spec fn is_variant(&self, name: Seq<char>) -> bool {
        crate::transpiler::transpile::variant_in(self.enum_defs, name)
    }

    /// Whether `name` is a variant of an enum seen so far.
    pub fn is_enum_variant(&self, name: &str) -> (b: bool)
        ensures
            b == self.is_variant(name@),
    {
        let mut i: usize = 0;
        while i < self.enum_defs.entries.len()
            invariant
                i <= self.enum_defs.entries@.len(),
                forall|j: int| 0 <= j < i ==>
                    !(#[trigger] self.enum_defs.entries@[j]).1@.map_values(|v: String| v@).contains(name@),
            decreases self.enum_defs.entries@.len() - i,
        {
            if crate::validator::helpers::contains_name(&self.enum_defs.entries[i].1, name) {
                return true;
            }
            i = i + 1;
        }
        false
    }

    /// A fresh context: nothing imported, nothing seen, nothing needed (`new`).
    pub fn new() -> (c: Self)
        ensures
            c.wf(),
            c.imports@.len() == 0,
            c.current_struct is None,
            !c.needs_allocator && !c.uses_stdout && !c.used_min_fn && !c.used_max_fn,
            c.enum_defs.as_map() =~= Map::empty(),
            !c.used_input_fn,
            c.cleanup_statements@.len() == 0,
            !c.used_sum_fn && !c.used_split_n_fn,
            c.struct_defs.as_map() =~= Map::empty(),
            !c.used_split_auto_fn && !c.used_split_alloc_fn && !c.is_find_method,
            !c.is_used_self && !c.is_used_allocator,
    {
        let c = TranspileContext {
            enums_declared: Ghost(0),
            imports: Vec::new(),
            current_struct: None,
            needs_allocator: false,
            uses_stdout: false,
            used_max_fn: false,
            used_min_fn: false,
            used_input_fn: false,
            used_split_alloc_fn: false,
            enum_defs: Dict::new(),
            cleanup_statements: Vec::new(),
            struct_defs: Dict::new(),
            used_sum_fn: false,
            used_split_n_fn: false,
            used_split_auto_fn: false,
            is_find_method: false,
            is_used_self: false,
            is_used_allocator: false,
        };
        assert(texts(c.imports@) =~= Seq::<Seq<char>>::empty());
        c
    }

    /// Whether the import line is already asked for.
    pub fn has_import(&self, import: &str) -> (b: bool)
        ensures
            b == self.import_set().contains(import@),
    {
        let mut i: usize = 0;
        while i < self.imports.len()
            invariant
                i <= self.imports@.len(),
                forall|j: int| 0 <= j < i ==> (#[trigger] self.imports@[j])@ != import@,
            decreases self.imports@.len() - i,
        {
            if str_eq(self.imports[i].as_str(), import) {
                assert(texts(self.imports@)[i as int] == import@);
                return true;
            }
            i = i + 1;
        }
        assert(!texts(self.imports@).contains(import@)) by {
            if texts(self.imports@).contains(import@) {
                let j = choose|j: int| 0 <= j < texts(self.imports@).len() && texts(self.imports@)[j] == import@;
                assert(self.imports@[j]@ == import@);
            }
        }
        false
    }

    /// Asks for an import line (`add_import`): the line comes back when it is
    /// new, `None` when it was already asked for.
    pub fn add_import(&mut self, import: &str) -> (r: Option<String>)
        requires
            old(self).wf(),
        ensures
            final(self).wf(),
            add_import_result(*old(self), *final(self), import@, r),
    {
        if self.has_import(import) {
            proof {
                assert(old(self).import_set().insert(import@) =~= old(self).import_set());
            }
            None
        } else {
            let ghost before = texts(self.imports@);
            self.imports.push(to_owned_string(import));
            proof {
                assert(texts(self.imports@) =~= before.push(import@));
                assert(!before.contains(import@));
                assert forall|a: int, b: int| 0 <= a < b < before.push(import@).len()
                    implies before.push(import@)[a] != before.push(import@)[b] by {
                    if b == before.len() {
                        assert(before[a] == before.push(import@)[a]);
                    }
                }
                before.lemma_push_to_set_commute(import@);
            }
            Some(to_owned_string(import))
        }
    }
}

/// The lines that set up the allocator in `main`.
pub const ALLOCATOR_SETUP: &'static str =
    "    var gpa = std.heap.GeneralPurposeAllocator(.{}){};\n    const allocator = gpa.allocator();\n";

/// The statements that free what the program allocated, one indented line
/// each, in the order they were recorded.
pub open spec fn cleanup_text(stmts: Seq<String>) -> Seq<char>
    decreases stmts.len(),
{
    if stmts.len() == 0 {
        Seq::empty()
    } else {
        cleanup_text(stmts.drop_last()) + "    "@ + stmts.last()@ + "\n"@
    }
}

/// The layout of a generated program: the imports, the definitions, the
/// helpers, and `main` with the allocator set up when one is needed, the
/// statements, and the clean-up.
pub open spec fn program_text(imports: Seq<char>, defs: Seq<char>, utils: Seq<char>, needs_allocator: bool,
    body: Seq<char>, cleanup: Seq<char>) -> Seq<char> {
    imports + "\n"@ + defs + "\n"@ + utils + "\n\npub fn main() !void {\n"@
        + (if needs_allocator { ALLOCATOR_SETUP@ } else { Seq::empty() }) + body + cleanup + "}\n"@
}

/// What generating code may do to the context: flags only get set, enums
/// only get added, the enum table changes only where an enum declaration is
/// generated, and the imports, structs and current struct stay.
pub open spec fn ctx_grows(a: TranspileContext, b: TranspileContext) -> bool {
    &&& a.enums_declared@ <= b.enums_declared@
    &&& b.enums_declared@ == a.enums_declared@ ==> b.enum_defs == a.enum_defs
    &&& b.imports == a.imports
    &&& b.struct_defs == a.struct_defs
    &&& b.current_struct == a.current_struct
    &&& a.needs_allocator ==> b.needs_allocator
    &&& a.uses_stdout ==> b.uses_stdout
    &&& a.used_min_fn ==> b.used_min_fn
    &&& a.used_max_fn ==> b.used_max_fn
    &&& a.used_input_fn ==> b.used_input_fn
    &&& a.used_sum_fn ==> b.used_sum_fn
    &&& a.used_split_n_fn ==> b.used_split_n_fn
    &&& a.used_split_auto_fn ==> b.used_split_auto_fn
    &&& a.used_split_alloc_fn ==> b.used_split_alloc_fn
    &&& a.is_find_method ==> b.is_find_method
    &&& a.is_used_self ==> b.is_used_self
    &&& a.is_used_allocator ==> b.is_used_allocator
    &&& forall|k: Seq<char>| #![trigger a.enum_defs.has(k)] #![trigger b.enum_defs.has(k)]
        a.enum_defs.has(k) ==> b.enum_defs.has(k)
}

impl TranspileContext {
    /// The Zig program for a checked program (`transpile`).
    pub fn transpile(&mut self, program: &Program) -> (r: String)
        requires
            old(self).wf(),
            forall|i: int| 0 <= i < program.expressions@.len() ==> #[trigger] ready(program.expressions@[i]),
        ensures
            final(self).wf(),
            ctx_grows(*old(self), *final(self)),
            exists|dcodes: Seq<Seq<char>>, mcodes: Seq<Seq<char>>, cm: TranspileContext|
                dcodes.len() == program.expressions@.len() && mcodes.len() == program.expressions@.len()
                && #[trigger] main_transpiled(program.expressions@, mcodes, cm, *final(self))
                && (forall|k: int| 0 <= k < dcodes.len() ==> def_head(program.expressions@[k]).is_prefix_of(dcodes[k]))
                && r@ == #[trigger] program_text(imports_text(texts(old(self).imports@)),
                    def_lines(program.expressions@, dcodes, dcodes.len() as int), util_text(*final(self)),
                    final(self).needs_allocator, main_lines(program.expressions@, mcodes, mcodes.len() as int),
                    cleanup_text(final(self).cleanup_statements@)),
    {
        let imports = generate_imports(self);
        assert forall|i: int| 0 <= i < program.expressions@.len() implies
            #[trigger] top_level_ready(program.expressions@[i]) by {
            assert(ready(program.expressions@[i]));
        }
        let defs = generate_top_level_defs(program, self);
        assert forall|i: int| 0 <= i < program.expressions@.len() implies
            #[trigger] main_ready(program.expressions@[i]) by {
            assert(ready(program.expressions@[i]));
        }
        let ghost cm = *self;
        let main_body = generate_main_body(program, self);
        let utils = generate_util_functions(self);
        let mut cleanup = String::new();
        let mut i: usize = 0;
        while i < self.cleanup_statements.len()
            invariant
                i <= self.cleanup_statements@.len(),
                cleanup@ == cleanup_text(self.cleanup_statements@.subrange(0, i as int)),
            decreases self.cleanup_statements@.len() - i,
        {
            push_str(&mut cleanup, "    ");
            push_str(&mut cleanup, self.cleanup_statements[i].as_str());
            push_str(&mut cleanup, "\n");
            proof {
                let after = self.cleanup_statements@.subrange(0, i + 1);
                assert(after.drop_last() =~= self.cleanup_statements@.subrange(0, i as int));
            }
            i = i + 1;
        }
        assert(self.cleanup_statements@.subrange(0, self.cleanup_statements@.len() as int)
            =~= self.cleanup_statements@);
        let mut out = imports;
        push_str(&mut out, "\n");
        push_str(&mut out, defs.as_str());
        push_str(&mut out, "\n");
        push_str(&mut out, utils.as_str());
        push_str(&mut out, "\n\npub fn main() !void {\n");
        if self.needs_allocator {
            push_str(&mut out, ALLOCATOR_SETUP);
        }
        push_str(&mut out, main_body.as_str());
        push_str(&mut out, cleanup.as_str());
        push_str(&mut out, "}\n");
        proof {
            let dcodes = choose|dcodes: Seq<Seq<char>>| dcodes.len() == program.expressions@.len()
                && defs@ == #[trigger] def_lines(program.expressions@, dcodes, dcodes.len() as int)
                && forall|k: int| 0 <= k < dcodes.len() ==> def_head(program.expressions@[k]).is_prefix_of(dcodes[k]);
            let mcodes = choose|mcodes: Seq<Seq<char>>| mcodes.len() == program.expressions@.len()
                && main_body@ == #[trigger] main_lines(program.expressions@, mcodes, mcodes.len() as int)
                && main_transpiled(program.expressions@, mcodes, cm, *self);
            assert(out@ =~= program_text(imports_text(texts(old(self).imports@)),
                def_lines(program.expressions@, dcodes, dcodes.len() as int), util_text(*self),
                self.needs_allocator, main_lines(program.expressions@, mcodes, mcodes.len() as int),
                cleanup_text(self.cleanup_statements@)));
        }
        out
    }
}

/// What asking for an import line does: a line already asked for is
/// answered `None` and changes nothing; a new one is appended to the imports
/// and given back, the rest of the context unchanged.
pub open spec fn add_import_result(before: TranspileContext, after: TranspileContext, import: Seq<char>,
    r: Option<String>) -> bool {
    if before.import_set().contains(import) {
        r is None && after == before
    } else {
        &&& r matches Some(s) && s@ == import
        &&& texts(after.imports@) == texts(before.imports@).push(import)
        &&& after == (TranspileContext { imports: after.imports, ..before })
    }
}

/// Asking twice for the same import line gives it back once: the second
/// request answers `None` and leaves the context as the first left it.
pub proof fn lemma_add_import_twice(c0: TranspileContext, c1: TranspileContext, c2: TranspileContext,
    import: Seq<char>, r1: Option<String>, r2: Option<String>)
    requires
        add_import_result(c0, c1, import, r1),
        add_import_result(c1, c2, import, r2),
    ensures
        r2 is None,
        c2 == c1,
        c1.import_set().contains(import),
{
    if !c0.import_set().contains(import) {
        assert(texts(c1.imports@).last() == import);
        assert(texts(c1.imports@).contains(import));
    }
}

} // verus!
