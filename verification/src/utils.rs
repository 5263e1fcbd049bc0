//! Finding the files a source file imports.
use vstd::prelude::*;
use crate::text::{push_str, starts_with_after_ws, string_push, trim_start_seq};

verus! {

/// The line prefix that imports another file.
pub const IMPORT_PREFIX: &'static str = "ƏlavəEt(";

/// A text with every `.az` taken out, reading from the left
/// (`replace(".az", "")`).
pub open spec fn without_az(s: Seq<char>) -> Seq<char>
    decreases s.len(),
{
    if s.len() >= 3 && s[0] == '.' && s[1] == 'a' && s[2] == 'z' {
        without_az(s.subrange(3, s.len() as int))
    } else if s.len() == 0 {
        s
    } else {
        seq![s[0]] + without_az(s.drop_first())
    }
}

/// The position of the first `"` at or after `from`, or the length when
/// there is none.
pub open spec fn next_quote(s: Seq<char>, from: int) -> int
    decreases s.len() - from,
{
    if from >= s.len() {
        s.len() as int
    } else if s[from] == '"' {
        from
    } else {
        next_quote(s, from + 1)
    }
}

/// The file a line imports (`extract_import_path`): for a line that starts
/// with `ƏlavəEt(` after white space and holds a `"`, the text after the
/// first `"` up to the next one, with `.az` taken out.
pub open spec fn import_path_spec(line: Seq<char>) -> Option<Seq<char>> {
    if IMPORT_PREFIX@.is_prefix_of(trim_start_seq(line)) && next_quote(line, 0) < line.len() {
        let q1 = next_quote(line, 0);
        let q2 = next_quote(line, q1 + 1);
        Some(without_az(line.subrange(q1 + 1, q2)))
    } else {
        None
    }
}

/// The line `ƏlavəEt("p")`, with anything after the closing quote, imports
/// `p`, for a path `p` that holds no quote and no dot; and a line whose
/// text (after white space) does not begin with `ƏlavəEt(` imports nothing.
pub proof fn lemma_import_line(p: Seq<char>, rest: Seq<char>, other: Seq<char>)
    requires
        forall|k: int| 0 <= k < p.len() ==> #[trigger] p[k] != '"' && p[k] != '.',
    ensures
        import_path_spec(IMPORT_PREFIX@ + seq!['"'] + p + seq!['"'] + rest) == Some(p),
        !IMPORT_PREFIX@.is_prefix_of(trim_start_seq(other)) ==> import_path_spec(other) is None,
{
    reveal_strlit("ƏlavəEt(");
    let pre = IMPORT_PREFIX@;
    let line = pre + seq!['"'] + p + seq!['"'] + rest;
    assert(pre.len() == 8);
    assert(line[0] == 'Ə');
    assert(!is_ws_char(line[0]));
    assert(trim_start_seq(line) == line);
    assert(pre.is_prefix_of(line)) by {
        assert(line.subrange(0, 8) =~= pre);
    }
    assert forall|k: int| 0 <= k < 8 implies line[k] != '"' by {
        assert(line[k] == pre[k]);
    }
    lemma_next_quote_skips(line, 0, 8);
    assert(line[8] == '"');
    assert(next_quote(line, 8) == 8);
    assert forall|k: int| 9 <= k < 9 + p.len() as int implies line[k] != '"' by {
        assert(line[k] == p[k - 9]);
    }
    lemma_next_quote_skips(line, 9, 9 + p.len() as int);
    assert(line[9 + p.len() as int] == '"');
    assert(next_quote(line, 9 + p.len() as int) == 9 + p.len() as int);
    assert(line.subrange(9, 9 + p.len() as int) =~= p);
    lemma_without_az_keeps(p);
}

/// Whether `c` is white space, as `trim_start` reads it.
spec fn is_ws_char(c: char) -> bool {
    crate::text::is_ws(c)
}

/// Positions without a quote are passed over in looking for one.
proof fn lemma_next_quote_skips(s: Seq<char>, from: int, to: int)
    requires
        0 <= from <= to <= s.len(),
        forall|k: int| from <= k < to ==> s[k] != '"',
    ensures
        next_quote(s, from) == next_quote(s, to),
    decreases to - from,
{
    if from < to {
        lemma_next_quote_skips(s, from + 1, to);
    }
}

/// A text without a dot has no `.az` to take out.
proof fn lemma_without_az_keeps(p: Seq<char>)
    requires
        forall|k: int| 0 <= k < p.len() ==> #[trigger] p[k] != '"' && p[k] != '.',
    ensures
        without_az(p) == p,
    decreases p.len(),
{
    if p.len() > 0 {
        let d = p.drop_first();
        assert forall|k: int| 0 <= k < d.len() implies #[trigger] d[k] != '"' && d[k] != '.' by {
            assert(d[k] == p[k + 1]);
        }
        lemma_without_az_keeps(d);
        assert(seq![p[0]] + d =~= p);
    }
}

/// The position of the first `"` at or after `from`.
fn find_quote(s: &str, from: usize) -> (r: usize)
    requires
        from <= s@.len(),
    ensures
        r == next_quote(s@, from as int),
    decreases s@.len() - from,
{
    let n = s.unicode_len();
    if from >= n {
        n
    } else if s.get_char(from) == '"' {
        from
    } else {
        find_quote(s, from + 1)
    }
}

/// `next_quote` lies between its start and the length.
proof fn lemma_next_quote_bounds(s: Seq<char>, from: int)
    requires
        0 <= from <= s.len(),
    ensures
        from <= next_quote(s, from) <= s.len(),
    decreases s.len() - from,
{
    if from < s.len() && s[from] != '"' {
        lemma_next_quote_bounds(s, from + 1);
    }
}

/// A text with every `.az` taken out.
fn remove_az(s: &str) -> (r: String)
    ensures
        r@ == without_az(s@),
{
    let n = s.unicode_len();
    let mut out = String::new();
    let mut i: usize = 0;
    assert(s@.subrange(0, n as int) =~= s@);
    assert(out@ + without_az(s@) =~= without_az(s@));
    while i < n
        invariant
            n == s@.len(),
            i <= n,
            without_az(s@) == out@ + without_az(s@.subrange(i as int, n as int)),
        decreases n - i,
    {
        let ghost rest = s@.subrange(i as int, n as int);
        if n - i >= 3 && s.get_char(i) == '.' && s.get_char(i + 1) == 'a' && s.get_char(i + 2) == 'z' {
            assert(rest.subrange(3, rest.len() as int) =~= s@.subrange(i + 3, n as int));
            i = i + 3;
        } else {
            let c = s.get_char(i);
            let ghost old_out = out@;
            string_push(&mut out, c);
            assert(rest.drop_first() =~= s@.subrange(i + 1, n as int));
            assert(rest[0] == c);
            i = i + 1;
            assert(out@ + without_az(s@.subrange(i as int, n as int)) =~= old_out + seq![c]
                + without_az(s@.subrange(i as int, n as int)));
        }
    }
    assert(s@.subrange(n as int, n as int) =~= Seq::<char>::empty());
    out
}

/// The file a line imports, if it is an import line (`extract_import_path`).
pub fn extract_import_path(line: &str) -> (r: Option<String>)
    ensures
        match r {
            Some(p) => import_path_spec(line@) == Some(p@),
            None => import_path_spec(line@) is None,
        },
{
    if starts_with_after_ws(line, IMPORT_PREFIX) {
        let n = line.unicode_len();
        let q1 = find_quote(line, 0);
        if q1 >= n {
            return None;
        }
        proof {
            lemma_next_quote_bounds(line@, q1 + 1);
        }
        let q2 = find_quote(line, q1 + 1);
        let between = line.substring_char(q1 + 1, q2);
        Some(remove_az(between))
    } else {
        None
    }
}

} // verus!
