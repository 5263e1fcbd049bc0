//! The imports at the head of the generated program.
use vstd::prelude::*;
use crate::text::{push_str, str_eq};
use crate::transpiler::{TranspileContext, texts};

verus! {

/// The import of Zig's standard library, which every program has.
pub const STD_IMPORT: &'static str = "const std = @import(\"std\");";

/// The import lines other than the standard library's, each followed by a
/// newline, in the order they were asked for.
pub open spec fn other_imports_text(imports: Seq<Seq<char>>) -> Seq<char>
    decreases imports.len(),
{
    if imports.len() == 0 {
        Seq::empty()
    } else {
        other_imports_text(imports.drop_last())
            + (if imports.last() == STD_IMPORT@ { Seq::empty() } else { imports.last().push('\n') })
    }
}

/// The head of the program: the standard library's import, then the other
/// imports asked for.
pub open spec fn imports_text(imports: Seq<Seq<char>>) -> Seq<char> {
    (if imports.contains(STD_IMPORT@) { Seq::empty() } else { STD_IMPORT@.push('\n') })
        + other_imports_text(imports)
}

/// The imports of the program (`generate_imports`).
pub fn generate_imports(ctx: &TranspileContext) -> (r: String)
    ensures
        r@ == imports_text(texts(ctx.imports@)),
{
    let mut imports = String::new();
    if !ctx.has_import(STD_IMPORT) {
        push_str(&mut imports, STD_IMPORT);
        push_str(&mut imports, "\n");
    }
    let ghost head = imports@;
    let mut i: usize = 0;
    while i < ctx.imports.len()
        invariant
            i <= ctx.imports@.len(),
            imports@ == head + other_imports_text(texts(ctx.imports@.subrange(0, i as int))),
        decreases ctx.imports@.len() - i,
    {
        let ghost before = texts(ctx.imports@.subrange(0, i as int));
        if !str_eq(ctx.imports[i].as_str(), STD_IMPORT) {
            push_str(&mut imports, ctx.imports[i].as_str());
            push_str(&mut imports, "\n");
        }
        proof {
            let after = texts(ctx.imports@.subrange(0, i + 1));
            assert(after.drop_last() =~= before);
            assert(after.last() == ctx.imports@[i as int]@);
            reveal_strlit("\n");
        }
        i = i + 1;
        assert(imports@ =~= head + other_imports_text(texts(ctx.imports@.subrange(0, i as int))));
    }
    proof {
        assert(ctx.imports@.subrange(0, ctx.imports@.len() as int) =~= ctx.imports@);
        reveal_strlit("\n");
    }
    imports
}

} // verus!
