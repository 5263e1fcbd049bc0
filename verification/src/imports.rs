//! Gathering a source file with the files it imports: the files each one
//! imports, and the walk that decides which file to read next and in what
//! order their texts are put together.
use vstd::prelude::*;
use crate::text::{push_str, string_push, views};
use crate::utils::{extract_import_path, import_path_spec};

verus! {

/// The lines of `s` from position `i` on, where `cur` is the part of the
/// current line read so far, as `str::lines` splits a text: at each `\n`,
/// without a `\r` just before it, and with no empty line after a last `\n`.
pub open spec fn lines_from(s: Seq<char>, i: int, cur: Seq<char>) -> Seq<Seq<char>>
    decreases s.len() - i,
{
    if i < 0 || i >= s.len() {
        if cur.len() > 0 { seq![cur] } else { Seq::empty() }
    } else if s[i] == '\n' {
        let line = if cur.len() > 0 && cur.last() == '\r' { cur.drop_last() } else { cur };
        seq![line] + lines_from(s, i + 1, Seq::empty())
    } else {
        lines_from(s, i + 1, cur.push(s[i]))
    }
}

/// The lines of a text (`str::lines`).
pub open spec fn text_lines(s: Seq<char>) -> Seq<Seq<char>> {
    lines_from(s, 0, Seq::empty())
}

/// The files the lines `ls` import, in order: the path each import line
/// names, with `.az` after it.
pub open spec fn imports_of(ls: Seq<Seq<char>>) -> Seq<Seq<char>>
    decreases ls.len(),
{
    if ls.len() == 0 {
        Seq::empty()
    } else {
        imports_of(ls.drop_last()) + match import_path_spec(ls.last()) {
            Some(p) => seq![p + ".az"@],
            None => Seq::empty(),
        }
    }
}

/// Adds the file the line `line` imports, if any, to `out`.
fn note_import(line: &str, out: &mut Vec<String>, Ghost(done): Ghost<Seq<Seq<char>>>)
    requires
        views(old(out)@) == imports_of(done),
    ensures
        views(final(out)@) == imports_of(done.push(line@)),
{
    let ghost before = views(out@);
    assert(done.push(line@).drop_last() =~= done);
    match extract_import_path(line) {
        Some(p) => {
            let mut full = p;
            push_str(&mut full, ".az");
            out.push(full);
            assert(views(out@) =~= before + seq![p@ + ".az"@]);
        },
        None => {
            assert(before + Seq::<Seq<char>>::empty() =~= before);
        },
    }
}

/// The files a source text imports, in the order of its lines: each import
/// line's path with `.az` after it.
pub fn import_paths(content: &str) -> (r: Vec<String>)
    ensures
        views(r@) == imports_of(text_lines(content@)),
{
    let n = content.unicode_len();
    let mut out: Vec<String> = Vec::new();
    let mut cur = String::new();
    let mut pending_cr = false;
    let ghost mut done: Seq<Seq<char>> = Seq::empty();
    let mut i: usize = 0;
    while i < n
        invariant
            n == content@.len(),
            i <= n,
            views(out@) == imports_of(done),
            !pending_cr ==> cur@.len() == 0 || cur@.last() != '\r',
            done + lines_from(content@, i as int,
                if pending_cr { cur@.push('\r') } else { cur@ }) == text_lines(content@),
        decreases n - i,
    {
        let c = content.get_char(i);
        let ghost whole = if pending_cr { cur@.push('\r') } else { cur@ };
        if c == '\n' {
            proof {
                let line = if whole.len() > 0 && whole.last() == '\r' { whole.drop_last() } else { whole };
                assert(line == cur@) by {
                    if pending_cr {
                        assert(whole.drop_last() =~= cur@);
                    }
                }
            }
            note_import(cur.as_str(), &mut out, Ghost(done));
            proof {
                assert(done.push(cur@) + lines_from(content@, i + 1, Seq::empty())
                    =~= done + (seq![cur@] + lines_from(content@, i + 1, Seq::empty())));
                done = done.push(cur@);
            }
            cur = String::new();
            pending_cr = false;
        } else if c == '\r' {
            if pending_cr {
                string_push(&mut cur, '\r');
            }
            pending_cr = true;
        } else {
            if pending_cr {
                string_push(&mut cur, '\r');
            }
            string_push(&mut cur, c);
            pending_cr = false;
        }
        i = i + 1;
    }
    if pending_cr {
        string_push(&mut cur, '\r');
    }
    if cur.unicode_len() > 0 {
        note_import(cur.as_str(), &mut out, Ghost(done));
        proof {
            assert(done + seq![cur@] =~= done.push(cur@));
        }
    } else {
        proof {
            assert(done + Seq::<Seq<char>>::empty() =~= done);
        }
    }
    out
}

/// A file being gathered: its text, the files it imports and how many of
/// them were dealt with.
pub struct WalkFrame {
    pub content: String,
    pub imports: Vec<String>,
    pub next: usize,
}

/// What the walk asks for next: the text of a file, or nothing more.
pub enum WalkStep {
    Read(String),
    Done,
}

/// The state of gathering a file with its imports (`read_file_with_imports`):
/// the files asked for so far, the files whose imports are being dealt
/// with (the last one innermost), and the text gathered so far.
pub struct ImportWalk {
    pub visited: Vec<String>,
    pub frames: Vec<WalkFrame>,
    pub result: String,
}

/// The imports still to deal with in the frames `fs`, with one more for
/// each frame (its own text).
pub open spec fn pending(fs: Seq<WalkFrame>) -> nat
    decreases fs.len(),
{
    if fs.len() == 0 {
        0
    } else {
        pending(fs.drop_last()) + (fs.last().imports@.len() - fs.last().next) as nat + 1
    }
}

/// A file being gathered, as a value: its text, the files it imports and
/// how many of them were dealt with.
pub struct FrameView {
    pub content: Seq<char>,
    pub imports: Seq<Seq<char>>,
    pub next: nat,
}

/// The state of the walk as a value.
pub struct WalkView {
    pub visited: Seq<Seq<char>>,
    pub frames: Seq<FrameView>,
    pub result: Seq<char>,
}

/// The imports still to deal with in the frames `fs`, with one more for
/// each frame (its own text).
pub open spec fn pending_view(fs: Seq<FrameView>) -> nat
    decreases fs.len(),
{
    if fs.len() == 0 {
        0
    } else {
        pending_view(fs.drop_last()) + (if fs.last().next <= fs.last().imports.len() {
            (fs.last().imports.len() - fs.last().next) as nat
        } else {
            0
        }) + 1
    }
}

/// How the walk goes on from `v` until a file is to be read or none is
/// left, and which file is asked for: the innermost file's next import is
/// asked for unless it was asked for already (then the one after it is
/// looked at); a file whose imports are all dealt with has its text, and a
/// line break, put after what was gathered, and the file it was imported
/// from goes on.
pub open spec fn advance_spec(v: WalkView) -> (WalkView, Option<Seq<char>>)
    decreases pending_view(v.frames),
{
    if v.frames.len() == 0 {
        (v, None)
    } else {
        let top = v.frames.last();
        if top.next < top.imports.len() {
            let p = top.imports[top.next as int];
            let fs = v.frames.drop_last().push(FrameView { next: top.next + 1, ..top });
            proof {
                assert(fs.drop_last() =~= v.frames.drop_last());
            }
            if v.visited.contains(p) {
                advance_spec(WalkView { frames: fs, ..v })
            } else {
                (WalkView { visited: v.visited.push(p), frames: fs, ..v }, Some(p))
            }
        } else {
            advance_spec(WalkView { frames: v.frames.drop_last(), result: v.result + top.content.push('\n'), ..v })
        }
    }
}

/// The walk asks for the imports of the innermost file in the order of its
/// import lines: of those not dealt with yet, the first one that was not
/// asked for before is the file asked for next (the ones before it, asked
/// for already, count as dealt with), and nothing is gathered meanwhile.
pub proof fn lemma_imports_asked_in_line_order(v: WalkView, j: int)
    requires
        v.frames.len() > 0,
        v.frames.last().next <= j < v.frames.last().imports.len(),
        forall|m: int| v.frames.last().next <= m < j ==> v.visited.contains(#[trigger] v.frames.last().imports[m]),
        !v.visited.contains(v.frames.last().imports[j]),
    ensures
        advance_spec(v).1 == Some(v.frames.last().imports[j]),
        advance_spec(v).0.visited == v.visited.push(v.frames.last().imports[j]),
        advance_spec(v).0.frames == v.frames.drop_last().push(FrameView { next: (j + 1) as nat, ..v.frames.last() }),
        advance_spec(v).0.result == v.result,
    decreases j - v.frames.last().next,
{
    let top = v.frames.last();
    let fs = v.frames.drop_last().push(FrameView { next: top.next + 1, ..top });
    assert(fs.drop_last() =~= v.frames.drop_last());
    if top.next < j {
        assert(v.visited.contains(top.imports[top.next as int]));
        let w = WalkView { frames: fs, ..v };
        assert(w.frames.last() == FrameView { next: top.next + 1, ..top });
        lemma_imports_asked_in_line_order(w, j);
        assert(w.frames.drop_last() =~= v.frames.drop_last());
    }
}

/// Once every import of the innermost file not dealt with yet was asked
/// for, its text (and a line break) is put after what was gathered, after
/// the texts of its imports, and the walk goes on with the file it was
/// imported from.
pub proof fn lemma_text_after_its_imports(v: WalkView)
    requires
        v.frames.len() > 0,
        v.frames.last().next <= v.frames.last().imports.len(),
        forall|m: int| v.frames.last().next <= m < v.frames.last().imports.len()
            ==> v.visited.contains(#[trigger] v.frames.last().imports[m]),
    ensures
        advance_spec(v) == advance_spec(WalkView { frames: v.frames.drop_last(),
            result: v.result + v.frames.last().content.push('\n'), ..v }),
    decreases v.frames.last().imports.len() - v.frames.last().next,
{
    let top = v.frames.last();
    if top.next < top.imports.len() {
        let fs = v.frames.drop_last().push(FrameView { next: top.next + 1, ..top });
        assert(fs.drop_last() =~= v.frames.drop_last());
        assert(v.visited.contains(top.imports[top.next as int]));
        let w = WalkView { frames: fs, ..v };
        assert(w.frames.last() == FrameView { next: top.next + 1, ..top });
        lemma_text_after_its_imports(w);
    }
}

/// Reading a text whose first import was not asked for yet asks for that
/// file next: the files a text imports are asked for from its first
/// import line on.
pub proof fn lemma_first_import_asked_first(v: WalkView, content: Seq<char>)
    requires
        imports_of(text_lines(content)).len() > 0,
        !v.visited.contains(imports_of(text_lines(content))[0]),
    ensures
        advance_spec(WalkView { frames: v.frames.push(FrameView {
            content, imports: imports_of(text_lines(content)), next: 0 }), ..v }).1
            == Some(imports_of(text_lines(content))[0]),
{
    let w = WalkView { frames: v.frames.push(FrameView {
        content, imports: imports_of(text_lines(content)), next: 0 }), ..v };
    lemma_imports_asked_in_line_order(w, 0);
}

/// The frame `f` as a value.
pub open spec fn frame_view(f: WalkFrame) -> FrameView {
    FrameView { content: f.content@, imports: views(f.imports@), next: f.next as nat }
}

/// The walk `w` as a value.
pub open spec fn walk_view(w: ImportWalk) -> WalkView {
    WalkView { visited: views(w.visited@), frames: w.frames@.map_values(|f: WalkFrame| frame_view(f)),
        result: w.result@ }
}

/// The file a step asks for, if any.
pub open spec fn step_view(r: WalkStep) -> Option<Seq<char>> {
    match r {
        WalkStep::Read(p) => Some(p@),
        WalkStep::Done => None,
    }
}

/// Whether `p` was asked for already.
pub open spec fn was_visited(visited: Seq<String>, p: Seq<char>) -> bool {
    views(visited).contains(p)
}

impl ImportWalk {
    /// No file is asked for twice, and each frame has dealt with at most
    /// its imports.
    pub open spec fn wf(&self) -> bool {
        &&& views(self.visited@).no_duplicates()
        &&& forall|k: int| 0 <= k < self.frames@.len() ==> #[trigger] self.frames@[k].next <= self.frames@[k].imports@.len()
    }

    /// A walk that has asked for nothing.
    pub fn new() -> (w: Self)
        ensures
            w.wf(),
            w.visited@.len() == 0,
            w.frames@.len() == 0,
            w.result@.len() == 0,
    {
        let w = ImportWalk { visited: Vec::new(), frames: Vec::new(), result: String::new() };
        assert(views(w.visited@) =~= Seq::<Seq<char>>::empty());
        w
    }

    /// Whether `p` was asked for already.
    fn has_visited(&self, p: &str) -> (b: bool)
        ensures
            b == was_visited(self.visited@, p@),
    {
        let mut i: usize = 0;
        while i < self.visited.len()
            invariant
                i <= self.visited@.len(),
                forall|k: int| 0 <= k < i ==> (#[trigger] views(self.visited@)[k]) != p@,
            decreases self.visited@.len() - i,
        {
            if crate::text::str_eq(self.visited[i].as_str(), p) {
                assert(views(self.visited@)[i as int] == p@);
                return true;
            }
            i = i + 1;
        }
        false
    }

    /// Asks for `p` unless it was asked for already.
    fn visit(&mut self, p: String) -> (asked: bool)
        requires
            old(self).wf(),
        ensures
            final(self).wf(),
            asked == !was_visited(old(self).visited@, p@),
            asked ==> views(final(self).visited@) == views(old(self).visited@).push(p@),
            !asked ==> final(self).visited@ == old(self).visited@,
            final(self).frames@ == old(self).frames@,
            final(self).result@ == old(self).result@,
    {
        if self.has_visited(p.as_str()) {
            return false;
        }
        let ghost before = views(self.visited@);
        self.visited.push(p);
        proof {
            assert(views(self.visited@) =~= before.push(p@));
        }
        true
    }

    /// Deals with the next import of the innermost file, or puts its text
    /// after what was gathered when all its imports are dealt with, until
    /// a file is to be read or none is left.
    fn advance(&mut self) -> (r: WalkStep)
        requires
            old(self).wf(),
        ensures
            final(self).wf(),
            old(self).result@.is_prefix_of(final(self).result@),
            r matches WalkStep::Read(p) ==> !was_visited(old(self).visited@, p@)
                && views(final(self).visited@) == views(old(self).visited@).push(p@),
            r is Done ==> final(self).frames@.len() == 0 && final(self).visited@ == old(self).visited@,
            old(self).frames@.len() == 1 && old(self).frames@[0].next == old(self).frames@[0].imports@.len() ==>
                r is Done && final(self).result@ == old(self).result@ + old(self).frames@[0].content@.push('\n'),
            (walk_view(*final(self)), step_view(r)) == advance_spec(walk_view(*old(self))),
    {
        loop
            invariant
                advance_spec(walk_view(*self)) == advance_spec(walk_view(*old(self))),
                self.wf(),
                old(self).result@.is_prefix_of(self.result@),
                self.visited@ == old(self).visited@,
                old(self).frames@.len() == 1 && old(self).frames@[0].next == old(self).frames@[0].imports@.len() ==>
                    (self.frames@ == old(self).frames@ && self.result@ == old(self).result@)
                    || (self.frames@.len() == 0
                        && self.result@ == old(self).result@ + old(self).frames@[0].content@.push('\n')),
            decreases pending(self.frames@),
        {
            let ghost v0 = walk_view(*self);
            if self.frames.len() == 0 {
                proof {
                    assert(advance_spec(v0) == (v0, None::<Seq<char>>));
                }
                return WalkStep::Done;
            }
            let ghost fs = self.frames@;
            let mut top = self.frames.pop().unwrap();
            let ghost tv = frame_view(top);
            proof {
                assert(v0.frames.last() == tv);
                assert(v0.frames.drop_last() =~= self.frames@.map_values(|f: WalkFrame| frame_view(f)));
            }
            proof {
                assert(fs.drop_last() =~= self.frames@);
                assert(top.next <= top.imports@.len()) by {
                    assert(fs[fs.len() - 1] == top);
                }
            }
            if top.next < top.imports.len() {
                let p = top.imports[top.next].clone();
                let q = p.clone();
                top.next = top.next + 1;
                self.frames.push(top);
                proof {
                    assert(self.frames@.drop_last() =~= fs.drop_last());
                    assert forall|k: int| 0 <= k < self.frames@.len() implies
                        #[trigger] self.frames@[k].next <= self.frames@[k].imports@.len() by {
                        if k < self.frames@.len() - 1 {
                            assert(self.frames@[k] == fs[k]);
                        }
                    }
                }
                let ghost nfs = v0.frames.drop_last().push(FrameView { next: tv.next + 1, ..tv });
                proof {
                    assert(walk_view(*self).frames =~= nfs);
                    assert(p@ == tv.imports[tv.next as int]);
                }
                if self.visit(p) {
                    proof {
                        assert(walk_view(*self) == WalkView { visited: v0.visited.push(q@), frames: nfs, ..v0 });
                        assert(advance_spec(v0) == (walk_view(*self), Some(q@)));
                    }
                    return WalkStep::Read(q);
                }
                proof {
                    assert(walk_view(*self) == WalkView { frames: nfs, ..v0 });
                    assert(advance_spec(v0) == advance_spec(walk_view(*self)));
                }
            } else {
                let ghost r0 = self.result@;
                push_str(&mut self.result, top.content.as_str());
                string_push(&mut self.result, '\n');
                proof {
                    assert(self.result@ =~= r0 + top.content@.push('\n'));
                    assert(r0.is_prefix_of(self.result@));
                    assert forall|k: int| 0 <= k < self.frames@.len() implies
                        #[trigger] self.frames@[k].next <= self.frames@[k].imports@.len() by {
                        assert(self.frames@[k] == fs[k]);
                    }
                    assert(walk_view(*self) == WalkView { frames: v0.frames.drop_last(),
                        result: v0.result + tv.content.push('\n'), ..v0 });
                    assert(advance_spec(v0) == advance_spec(walk_view(*self)));
                }
            }
        }
    }

    /// Begins with the file `path`: asks for it (`read_file_with_imports`).
    pub fn start(&mut self, path: String) -> (r: WalkStep)
        requires
            old(self).wf(),
        ensures
            final(self).wf(),
            old(self).result@.is_prefix_of(final(self).result@),
            !was_visited(old(self).visited@, path@) ==> (r matches WalkStep::Read(p) && p@ == path@
                && views(final(self).visited@) == views(old(self).visited@).push(path@)),
            r matches WalkStep::Read(p) ==> !was_visited(old(self).visited@, p@),
            was_visited(old(self).visited@, path@) ==>
                (walk_view(*final(self)), step_view(r)) == advance_spec(walk_view(*old(self))),
    {
        let q = path.clone();
        if self.visit(path) {
            WalkStep::Read(q)
        } else {
            self.advance()
        }
    }

    /// The text of the file asked for last was read: it becomes the
    /// innermost file, with the files its lines import in order, and the walk
    /// goes on as `advance_spec` says: its imports not asked for yet are
    /// asked for first, in line order, and its text comes after theirs.
    pub fn file_read(&mut self, content: String) -> (r: WalkStep)
        requires
            old(self).wf(),
        ensures
            final(self).wf(),
            old(self).result@.is_prefix_of(final(self).result@),
            r matches WalkStep::Read(p) ==> !was_visited(old(self).visited@, p@)
                && views(final(self).visited@) == views(old(self).visited@).push(p@),
            r is Done ==> final(self).frames@.len() == 0,
            imports_of(text_lines(content@)).len() == 0 && old(self).frames@.len() == 0 ==>
                r is Done && final(self).result@ == old(self).result@ + content@.push('\n'),
            (walk_view(*final(self)), step_view(r)) == advance_spec(WalkView {
                frames: walk_view(*old(self)).frames.push(FrameView {
                    content: content@, imports: imports_of(text_lines(content@)), next: 0 }),
                ..walk_view(*old(self)) }),
    {
        let ghost cv = content@;
        let imports = import_paths(content.as_str());
        self.frames.push(WalkFrame { content, imports, next: 0 });
        proof {
            assert(walk_view(*self).frames =~= walk_view(*old(self)).frames.push(FrameView {
                content: cv, imports: imports_of(text_lines(cv)), next: 0 }));
            assert forall|k: int| 0 <= k < self.frames@.len() implies
                #[trigger] self.frames@[k].next <= self.frames@[k].imports@.len() by {
                if k < self.frames@.len() - 1 {
                    assert(self.frames@[k] == old(self).frames@[k]);
                }
            }
        }
        self.advance()
    }
}

} // verus!
