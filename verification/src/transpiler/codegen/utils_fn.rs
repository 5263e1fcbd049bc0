//! The helper functions the generated program needs, written after its
//! definitions.
use vstd::prelude::*;
use crate::text::push_str;
use crate::transpiler::TranspileContext;

verus! {

/// The helper that reads a line of input after a prompt.
pub const INPUT_FN: &'static str = "\npub fn input(prompt: []const u8, buf: []u8) ![]u8 {\n    const stdin = std.io.getStdIn().reader();\n    std.debug.print(\"{s} \", .{prompt});\n    if (try stdin.readUntilDelimiterOrEof(buf, '\\n')) |line| {\n        return line;\n    } else {\n        return error.EmptyInput;\n    }\n}\n";

/// The helper that finds a text in a list of texts.
pub const FIND_INDEX_FN: &'static str = "\nfn find_index(list: []const []const u8, value: []const u8) i64 {\n    for (list, 0..) |item, i| {\n        if (std.mem.eql(u8, item, value)) return @intCast(i);\n    }\n    return -1;\n}\n";

/// The helper that sums a list of numbers.
pub const SUM_FN: &'static str = "\npub fn sum(comptime T: type, list: []const T) T {\n    var total: T = 0;\n    for (list) |item| {\n        total += item;\n    }\n    return total;\n}\n";

/// The helper that splits a text into at most a given number of parts.
pub const SPLIT_N_FN: &'static str = "\nconst MAX_PARTS = 32;\n\npub const SplitResult = struct {\n    parts: [MAX_PARTS][]const u8,\n    len: usize,\n};\n\npub fn splitN(input: []const u8, delimiter: u8, count: usize) SplitResult {\n    var parts: [MAX_PARTS][]const u8 = undefined;\n    var i: usize = 0;\n    var iter = std.mem.splitScalar(u8, input, delimiter);\n    while (iter.next()) |part| {\n        if (i >= count or i >= MAX_PARTS) break;\n        parts[i] = part;\n        i += 1;\n    }\n    return SplitResult{ .parts = parts, .len = i };\n}\n";

/// The helper that splits a text into an allocated list of parts.
pub const SPLIT_AUTO_FN: &'static str = "\npub fn splitAuto(allocator: std.mem.Allocator, input: []const u8, delimiter: u8) ![]const []const u8 {\n    var list = std.ArrayList([]const u8).init(allocator);\n    var iter = std.mem.splitScalar(u8, input, delimiter);\n    while (iter.next()) |part| {\n        try list.append(part);\n    }\n    return try list.toOwnedSlice();\n}\n";

/// The helper that splits a text into an allocated `ArrayList` of parts.
pub const SPLIT_ALLOC_FN: &'static str = "\npub fn splitNAlloc(allocator: std.mem.Allocator, input: []const u8, delimiter: u8) !std.ArrayList([]const u8) {\n    var list = std.ArrayList([]const u8).init(allocator);\n    var iter = std.mem.splitScalar(u8, input, delimiter);\n    while (iter.next()) |part| {\n        try list.append(part);\n    }\n    return list;\n}\n";

/// The helpers the context says the program uses, in a fixed order.
pub open spec fn util_text(ctx: TranspileContext) -> Seq<char> {
    (if ctx.used_input_fn { INPUT_FN@ } else { Seq::empty() })
    + (if ctx.is_find_method { FIND_INDEX_FN@ } else { Seq::empty() })
    + (if ctx.used_sum_fn { SUM_FN@ } else { Seq::empty() })
    + (if ctx.used_split_n_fn { SPLIT_N_FN@ } else { Seq::empty() })
    + (if ctx.used_split_auto_fn { SPLIT_AUTO_FN@ } else { Seq::empty() })
    + (if ctx.used_split_alloc_fn { SPLIT_ALLOC_FN@ } else { Seq::empty() })
}

/// The code of the helpers the program uses (`generate_util_functions`).
pub fn generate_util_functions(ctx: &TranspileContext) -> (r: String)
    ensures
        r@ == util_text(*ctx),
{
    let mut code = String::new();
    if ctx.used_input_fn {
        push_str(&mut code, INPUT_FN);
    }
    if ctx.is_find_method {
        push_str(&mut code, FIND_INDEX_FN);
    }
    if ctx.used_sum_fn {
        push_str(&mut code, SUM_FN);
    }
    if ctx.used_split_n_fn {
        push_str(&mut code, SPLIT_N_FN);
    }
    if ctx.used_split_auto_fn {
        push_str(&mut code, SPLIT_AUTO_FN);
    }
    if ctx.used_split_alloc_fn {
        push_str(&mut code, SPLIT_ALLOC_FN);
    }
    assert(code@ =~= util_text(*ctx));
    code
}

} // verus!
