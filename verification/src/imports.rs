//! Resolving `import` items. The files that imports name are found and read
//! by the caller; this module decides everything else: which import needs a
//! file, which file was already loaded, how a file's functions are placed
//! under their module path, and how modules of the same name are merged.
//!
//! The resolver is a state machine. Each of its methods takes what the caller
//! found out and answers with the next request: find the file of a module
//! path, read the file found, or stop with the items or with an error.
use vstd::prelude::*;
use crate::ast::{view_function, view_functions, view_strings, view_toplevel, view_toplevels, FunctionDef, SpecFunctionDef, SpecTopLevel, TopLevel};
use crate::compiler::{merge_toplevels, merged, nest_module, nested, strip_bom, without_bom};
use crate::duplicate::{dup_strings, dup_toplevel, lemma_view_toplevels_push};
use crate::grammar::program;
use crate::lexer::skip;
use crate::parser::parse_program;
use crate::text::{dec, push_str, str_eq, str_to_string, usize_to_string};

verus! {

// ───────────────────────── the model ─────────────────────────

/// What the resolver is waiting for.
#[derive(Clone, Copy, PartialEq, Eq, Structural, Debug)]
pub enum ImportPhase {
    /// Nothing: it can go on by itself.
    Working,
    /// The key and label of the file that the last `Locate` asked for.
    Locating,
    /// The text of the file found last.
    Reading,
    /// Nothing more: it has answered `Done` or `Failed`.
    Finished,
}

/// One list of items being resolved: the items, how far it got, what it
/// resolved so far, the directory that its imports are relative to, and the
/// import in progress (its module path, and the key and label of its file).
pub struct SpecFrame {
    pub items: Seq<SpecTopLevel>,
    pub next: int,
    pub resolved: Seq<SpecTopLevel>,
    pub dir: nat,
    pub pending: Seq<Seq<char>>,
    pub key: Seq<char>,
    pub label: Seq<char>,
}

/// The resolver: the lists in progress (the last one is worked on), the keys
/// of the files loaded, the number of directories named so far, and what it
/// waits for.
pub struct SpecResolver {
    pub frames: Seq<SpecFrame>,
    pub loaded: Seq<Seq<char>>,
    pub dirs: nat,
    pub phase: ImportPhase,
}

/// A request of the resolver to its caller.
pub enum SpecRequest {
    /// Find the file of module `path`, relative to directory `dir`.
    Locate { dir: nat, path: Seq<Seq<char>> },
    /// Read the file found last; its directory is henceforth `dir`.
    Read { dir: nat },
    /// The items, resolved.
    Done(Seq<SpecTopLevel>),
    /// Resolution failed with this message.
    Failed(Seq<char>),
}

/// The items not yet looked at in a list.
pub open spec fn left(f: SpecFrame) -> nat {
    if 0 <= f.next < f.items.len() {
        (f.items.len() - f.next) as nat
    } else {
        0
    }
}

/// The items not yet looked at in all lists.
pub open spec fn remaining(fs: Seq<SpecFrame>) -> nat
    decreases fs.len(),
{
    if fs.len() == 0 {
        0
    } else {
        remaining(fs.drop_last()) + left(fs.last())
    }
}

/// The lists with the last one replaced.
pub open spec fn with_top(fs: Seq<SpecFrame>, f: SpecFrame) -> Seq<SpecFrame> {
    fs.update(fs.len() - 1, f)
}

pub proof fn lemma_with_top(fs: Seq<SpecFrame>, f: SpecFrame)
    requires
        fs.len() > 0,
    ensures
        with_top(fs, f).drop_last() == fs.drop_last(),
        with_top(fs, f).last() == f,
        with_top(fs, f).len() == fs.len(),
{
    assert(with_top(fs, f).drop_last() =~= fs.drop_last());
}

/// Goes on until the caller is needed: takes the next item of the last list
/// (an import asks for its file, any other item is kept), and when a list is
/// done, merges its modules and places it under the import that read it.
pub open spec fn advance(r: SpecResolver) -> (SpecResolver, SpecRequest)
    decreases remaining(r.frames), r.frames.len(),
{
    if r.frames.len() == 0 {
        (SpecResolver { phase: ImportPhase::Finished, ..r }, SpecRequest::Done(Seq::empty()))
    } else {
        let top = r.frames.last();
        if 0 <= top.next < top.items.len() {
            let item = top.items[top.next];
            match item {
                SpecTopLevel::Import(path) => (
                    SpecResolver {
                        frames: with_top(r.frames, SpecFrame { next: top.next + 1, pending: path, ..top }),
                        phase: ImportPhase::Locating,
                        ..r
                    },
                    SpecRequest::Locate { dir: top.dir, path },
                ),
                _ => {
                    let top2 = SpecFrame { next: top.next + 1, resolved: top.resolved.push(item), ..top };
                    proof {
                        lemma_with_top(r.frames, top2);
                        assert(remaining(with_top(r.frames, top2)) == remaining(r.frames.drop_last())
                            + left(top2));
                        assert(remaining(r.frames) == remaining(r.frames.drop_last()) + left(top));
                    }
                    advance(SpecResolver { frames: with_top(r.frames, top2), ..r })
                },
            }
        } else {
            let done = merged(top.resolved);
            let rest = r.frames.drop_last();
            if rest.len() == 0 {
                (SpecResolver { frames: rest, phase: ImportPhase::Finished, ..r }, SpecRequest::Done(done))
            } else {
                let parent = rest.last();
                let parent2 = SpecFrame {
                    resolved: parent.resolved.push(nested(parent.pending, done)),
                    ..parent
                };
                proof {
                    lemma_with_top(rest, parent2);
                    assert(remaining(with_top(rest, parent2)) == remaining(rest.drop_last()) + left(
                        parent2,
                    ));
                    assert(remaining(rest) == remaining(rest.drop_last()) + left(parent));
                    assert(remaining(r.frames) == remaining(rest) + left(top));
                }
                advance(SpecResolver { frames: with_top(rest, parent2), ..r })
            }
        }
    }
}

/// The file of the import in progress has key `key` and label `label`: a file
/// loaded before leaves the import as it is; otherwise it is to be read.
pub open spec fn on_located(r: SpecResolver, key: Seq<char>, label: Seq<char>) -> (SpecResolver, SpecRequest) {
    let top = r.frames.last();
    if r.loaded.contains(key) {
        advance(
            SpecResolver {
                frames: with_top(
                    r.frames,
                    SpecFrame { resolved: top.resolved.push(SpecTopLevel::Import(top.pending)), ..top },
                ),
                phase: ImportPhase::Working,
                ..r
            },
        )
    } else {
        (
            SpecResolver {
                frames: with_top(r.frames, SpecFrame { key, label, ..top }),
                phase: ImportPhase::Reading,
                ..r
            },
            SpecRequest::Read { dir: r.dirs },
        )
    }
}

/// The functions of a file, as items.
pub open spec fn as_items(fs: Seq<SpecFunctionDef>) -> Seq<SpecTopLevel> {
    fs.map_values(|f: SpecFunctionDef| SpecTopLevel::Function(f))
}

pub open spec fn msg_unreadable(label: Seq<char>, e: Seq<char>) -> Seq<char> {
    "Modül okunamadı: "@ + label + " - "@ + e
}

pub open spec fn msg_module_syntax(label: Seq<char>, position: nat) -> Seq<char> {
    "Syntax Hatası ("@ + label + "):\nParseError { position: "@ + dec(position) + " }"@
}

/// The text of the file found last, or why it could not be read: a file that
/// reads and parses is marked loaded and its functions are resolved next, in
/// the file's directory; otherwise resolution fails.
pub open spec fn on_read(r: SpecResolver, text: Result<Seq<char>, Seq<char>>) -> (SpecResolver, SpecRequest) {
    let top = r.frames.last();
    match text {
        Err(e) => (
            SpecResolver { phase: ImportPhase::Finished, ..r },
            SpecRequest::Failed(msg_unreadable(top.label, e)),
        ),
        Ok(t) => match program(without_bom(t)) {
            None => (
                SpecResolver { phase: ImportPhase::Finished, ..r },
                SpecRequest::Failed(
                    msg_module_syntax(top.label, skip(without_bom(t), 0) as usize as nat),
                ),
            ),
            Some((_, fs)) => advance(
                SpecResolver {
                    frames: r.frames.push(
                        SpecFrame {
                            items: as_items(fs),
                            next: 0,
                            resolved: Seq::empty(),
                            dir: r.dirs,
                            pending: Seq::empty(),
                            key: Seq::empty(),
                            label: Seq::empty(),
                        },
                    ),
                    loaded: r.loaded.push(top.key),
                    dirs: r.dirs + 1,
                    phase: ImportPhase::Working,
                },
            ),
        },
    }
}

/// Every import among the items names a module.
pub open spec fn imports_named(items: Seq<SpecTopLevel>) -> bool {
    forall|i: int| 0 <= i < items.len() ==> (#[trigger] items[i] matches SpecTopLevel::Import(p) ==> p.len() > 0)
}

/// The resolver is consistent: only the first list holds imports, each
/// naming a module; a list in progress has not run past its end; and while
/// a list below another waits, its import in progress names a module.
pub open spec fn well_formed(r: SpecResolver) -> bool {
    &&& r.frames.len() > 0 || r.phase == ImportPhase::Finished
    &&& forall|k: int| 0 <= k < r.frames.len() ==> 0 <= #[trigger] r.frames[k].next <= r.frames[k].items.len()
    &&& forall|k: int| 0 <= k < r.frames.len() ==> imports_named(#[trigger] r.frames[k].items)
    &&& forall|k: int| 0 <= k < r.frames.len() - 1 ==> #[trigger] r.frames[k].pending.len() > 0
    &&& (r.phase == ImportPhase::Locating || r.phase == ImportPhase::Reading) ==> r.frames.last().pending.len() > 0
}

// ───────────────────────── what the resolver promises ─────────────────────────

/// A fresh resolver for the items, after `k` of them were taken as they are.
pub open spec fn fresh_after(items: Seq<SpecTopLevel>, k: int) -> SpecResolver {
    SpecResolver {
        frames: seq![
            SpecFrame {
                items,
                next: k,
                resolved: items.take(k),
                dir: 0,
                pending: Seq::empty(),
                key: Seq::empty(),
                label: Seq::empty(),
            },
        ],
        loaded: Seq::empty(),
        dirs: 1,
        phase: ImportPhase::Working,
    }
}

proof fn lemma_no_imports(items: Seq<SpecTopLevel>, k: int)
    requires
        0 <= k <= items.len(),
        forall|i: int| 0 <= i < items.len() ==> !(#[trigger] items[i] is Import),
    ensures
        advance(fresh_after(items, k)).1 == SpecRequest::Done(merged(items)),
    decreases items.len() - k,
{
    let r = fresh_after(items, k);
    let top = r.frames.last();
    if k < items.len() {
        let top2 = SpecFrame { next: k + 1, resolved: top.resolved.push(items[k]), ..top };
        assert(items.take(k).push(items[k]) =~= items.take(k + 1));
        assert(with_top(r.frames, top2) =~= fresh_after(items, k + 1).frames);
        assert(SpecResolver { frames: with_top(r.frames, top2), ..r } == fresh_after(items, k + 1));
        lemma_no_imports(items, k + 1);
    } else {
        assert(items.take(k) =~= items);
        assert(r.frames.drop_last() =~= Seq::<SpecFrame>::empty());
    }
}

/// Without imports nothing is read: the answer is at once the items, with
/// modules of the same name merged.
pub proof fn law_no_imports_nothing_read(items: Seq<SpecTopLevel>)
    requires
        forall|i: int| 0 <= i < items.len() ==> !(#[trigger] items[i] is Import),
    ensures
        advance(fresh_after(items, 0)).1 == SpecRequest::Done(merged(items)),
{
    lemma_no_imports(items, 0);
}

proof fn lemma_advance_never_reads(r: SpecResolver)
    ensures
        !(advance(r).1 is Read),
    decreases remaining(r.frames), r.frames.len(),
{
    if r.frames.len() > 0 {
        let top = r.frames.last();
        if 0 <= top.next < top.items.len() {
            let item = top.items[top.next];
            if !(item is Import) {
                let top2 = SpecFrame { next: top.next + 1, resolved: top.resolved.push(item), ..top };
                lemma_with_top(r.frames, top2);
                assert(remaining(with_top(r.frames, top2)) == remaining(r.frames.drop_last()) + left(top2));
                assert(remaining(r.frames) == remaining(r.frames.drop_last()) + left(top));
                lemma_advance_never_reads(SpecResolver { frames: with_top(r.frames, top2), ..r });
            }
        } else {
            let rest = r.frames.drop_last();
            if rest.len() > 0 {
                let parent = rest.last();
                let parent2 = SpecFrame {
                    resolved: parent.resolved.push(nested(parent.pending, merged(top.resolved))),
                    ..parent
                };
                lemma_with_top(rest, parent2);
                assert(remaining(with_top(rest, parent2)) == remaining(rest.drop_last()) + left(parent2));
                assert(remaining(rest) == remaining(rest.drop_last()) + left(parent));
                assert(remaining(r.frames) == remaining(rest) + left(top));
                lemma_advance_never_reads(SpecResolver { frames: with_top(rest, parent2), ..r });
            }
        }
    }
}

/// A file is read at most once: when the file of an import was loaded
/// before, the resolver does not ask for it again.
pub proof fn law_loaded_file_not_read_again(r: SpecResolver, key: Seq<char>, label: Seq<char>)
    requires
        r.loaded.contains(key),
    ensures
        !(on_located(r, key, label).1 is Read),
{
    let top = r.frames.last();
    lemma_advance_never_reads(
        SpecResolver {
            frames: with_top(
                r.frames,
                SpecFrame { resolved: top.resolved.push(SpecTopLevel::Import(top.pending)), ..top },
            ),
            phase: ImportPhase::Working,
            ..r
        },
    );
}

// ───────────────────────── the resolver ─────────────────────────

struct Frame {
    items: Vec<TopLevel>,
    next: usize,
    resolved: Vec<TopLevel>,
    dir: usize,
    pending: Vec<String>,
    key: String,
    label: String,
}

spec fn view_frame(f: Frame) -> SpecFrame {
    SpecFrame {
        items: view_toplevels(f.items@),
        next: f.next as int,
        resolved: view_toplevels(f.resolved@),
        dir: f.dir as nat,
        pending: view_strings(f.pending@),
        key: f.key@,
        label: f.label@,
    }
}

spec fn view_frames(fs: Seq<Frame>) -> Seq<SpecFrame> {
    fs.map_values(|f: Frame| view_frame(f))
}

/// What the resolver asks of its caller.
#[derive(Debug)]
pub enum ImportRequest {
    /// Find the file of module `path` relative to directory `dir`, and give
    /// its key (two paths to one file share a key) and its label (how error
    /// messages name it) to `located`.
    Locate { dir: usize, path: Vec<String> },
    /// Read the file found last and give its text, or why it could not be
    /// read, to `read`; the file's directory is henceforth `dir`.
    Read { dir: usize },
    /// The items, resolved.
    Done(Vec<TopLevel>),
    /// Resolution failed with this message.
    Failed(String),
}

pub open spec fn view_request(q: ImportRequest) -> SpecRequest {
    match q {
        ImportRequest::Locate { dir, path } => SpecRequest::Locate { dir: dir as nat, path: view_strings(path@) },
        ImportRequest::Read { dir } => SpecRequest::Read { dir: dir as nat },
        ImportRequest::Done(items) => SpecRequest::Done(view_toplevels(items@)),
        ImportRequest::Failed(m) => SpecRequest::Failed(m@),
    }
}

pub struct ImportResolver {
    frames: Vec<Frame>,
    loaded: Vec<String>,
    dirs: usize,
    phase: ImportPhase,
}

impl ImportResolver {
    pub closed spec fn model(&self) -> SpecResolver {
        SpecResolver {
            frames: view_frames(self.frames@),
            loaded: view_strings(self.loaded@),
            dirs: self.dirs as nat,
            phase: self.phase,
        }
    }

    /// A resolver for the items of the main file, whose directory is
    /// directory 0.
    pub fn new(items: Vec<TopLevel>) -> (r: Self)
        requires
            imports_named(view_toplevels(items@)),
        ensures
            r.model() == (SpecResolver {
                frames: seq![
                    SpecFrame {
                        items: view_toplevels(items@),
                        next: 0,
                        resolved: Seq::empty(),
                        dir: 0,
                        pending: Seq::empty(),
                        key: Seq::empty(),
                        label: Seq::empty(),
                    },
                ],
                loaded: Seq::empty(),
                dirs: 1,
                phase: ImportPhase::Working,
            }),
            well_formed(r.model()),
    {
        let f = Frame {
            items,
            next: 0,
            resolved: Vec::new(),
            dir: 0,
            pending: Vec::new(),
            key: String::new(),
            label: String::new(),
        };
        let mut frames: Vec<Frame> = Vec::new();
        frames.push(f);
        let r = ImportResolver { frames, loaded: Vec::new(), dirs: 1, phase: ImportPhase::Working };
        proof {
            assert(view_toplevels(Seq::<TopLevel>::empty()) =~= Seq::<SpecTopLevel>::empty());
            assert(view_strings(Seq::<String>::empty()) =~= Seq::<Seq<char>>::empty());
            assert(r.model().frames =~= seq![view_frame(f)]);
            assert(r.model().loaded =~= Seq::<Seq<char>>::empty());
        }
        r
    }

    /// Whether the resolver waits for `located`.
    pub fn awaits_location(&self) -> (b: bool)
        ensures
            b == (self.model().phase == ImportPhase::Locating),
    {
        self.phase == ImportPhase::Locating
    }

    /// Whether the resolver waits for `read`.
    pub fn awaits_text(&self) -> (b: bool)
        ensures
            b == (self.model().phase == ImportPhase::Reading),
    {
        self.phase == ImportPhase::Reading
    }
}


/// The lists with the last one taken off and `f` put in its place.
proof fn lemma_replace_top(v: Seq<Frame>, x: Frame)
    requires
        v.len() > 0,
    ensures
        view_frames(v.drop_last().push(x)) == with_top(view_frames(v), view_frame(x)),
{
    assert(view_frames(v.drop_last().push(x)) =~= with_top(view_frames(v), view_frame(x)));
}

proof fn lemma_pop(v: Seq<Frame>)
    requires
        v.len() > 0,
    ensures
        view_frames(v.drop_last()) == view_frames(v).drop_last(),
        view_frames(v).last() == view_frame(v.last()),
{
    assert(view_frames(v.drop_last()) =~= view_frames(v).drop_last());
}

proof fn lemma_push(v: Seq<Frame>, x: Frame)
    ensures
        view_frames(v.push(x)) == view_frames(v).push(view_frame(x)),
{
    assert(view_frames(v.push(x)) =~= view_frames(v).push(view_frame(x)));
}

fn contains_key(keys: &Vec<String>, key: &String) -> (b: bool)
    ensures
        b == view_strings(keys@).contains(key@),
{
    let ghost ks = view_strings(keys@);
    let mut i: usize = 0;
    while i < keys.len()
        invariant
            i <= keys.len(),
            ks == view_strings(keys@),
            forall|j: int| 0 <= j < i ==> ks[j] != key@,
        decreases keys.len() - i,
    {
        if str_eq(keys[i].as_str(), key.as_str()) {
            assert(ks[i as int] == key@);
            return true;
        }
        i += 1;
    }
    false
}

/// The functions of a file, as items.
fn function_items(fs: &Vec<FunctionDef>) -> (r: Vec<TopLevel>)
    ensures
        view_toplevels(r@) == as_items(view_functions(fs@)),
{
    let mut r: Vec<TopLevel> = Vec::new();
    let mut i: usize = 0;
    proof {
        assert(view_toplevels(r@) =~= as_items(view_functions(fs@.take(0))));
    }
    while i < fs.len()
        invariant
            i <= fs.len(),
            view_toplevels(r@) == as_items(view_functions(fs@.take(i as int))),
        decreases fs.len() - i,
    {
        let x = TopLevel::Function(crate::duplicate::dup_function(&fs[i]));
        proof {
            lemma_view_toplevels_push(r@, x);
            assert(as_items(view_functions(fs@.take(i + 1))) =~= as_items(view_functions(fs@.take(i as int))).push(
                SpecTopLevel::Function(view_function(fs@[i as int])),
            ));
        }
        r.push(x);
        i += 1;
    }
    proof {
        assert(fs@.take(i as int) =~= fs@);
    }
    r
}

impl ImportResolver {
    /// How many directories were named so far.
    pub fn directory_count(&self) -> (n: usize)
        ensures
            n == self.model().dirs,
    {
        self.dirs
    }

    /// Goes on by itself until the caller is needed.
    pub fn start(&mut self) -> (q: ImportRequest)
        requires
            well_formed(old(self).model()),
            old(self).model().phase == ImportPhase::Working,
        ensures
            (final(self).model(), view_request(q)) == advance(old(self).model()),
            well_formed(final(self).model()),
    {
        self.advance_exec()
    }

    fn advance_exec(&mut self) -> (q: ImportRequest)
        requires
            well_formed(old(self).model()),
            old(self).model().phase == ImportPhase::Working,
        ensures
            (final(self).model(), view_request(q)) == advance(old(self).model()),
            well_formed(final(self).model()),
    {
        let ghost goal = advance(self.model());
        loop
            invariant
                well_formed(self.model()),
                self.model().phase == ImportPhase::Working,
                self.frames.len() > 0,
                advance(self.model()) == goal,
                goal == advance(old(self).model()),
            decreases 2 * remaining(self.model().frames) + self.frames.len(),
        {
            let ghost m = self.model();
            let ghost v = self.frames@;
            proof {
                lemma_pop(v);
            }
            let mut top = self.frames.pop().unwrap();
            let ghost t0 = view_frame(top);
            proof {
                assert(t0 == m.frames.last());
                crate::ast::lemma_view_toplevels(top.items@);
            }
            let k = top.next;
            if k < top.items.len() {
                proof {
                    crate::ast::lemma_view_toplevels(top.items@);
                }
                let item = dup_toplevel(&top.items[k]);
                match &item {
                    TopLevel::Import(path) => {
                        let p = dup_strings(path);
                        let p2 = dup_strings(path);
                        top.next = k + 1;
                        top.pending = p;
                        let dir = top.dir;
                        proof {
                            lemma_replace_top(v, top);
                            assert(m.frames[m.frames.len() - 1].items[k as int] == view_toplevel(item));
                        }
                        self.frames.push(top);
                        self.phase = ImportPhase::Locating;
                        proof {
                            let t0 = m.frames.last();
                            assert(view_toplevel(item) == SpecTopLevel::Import(view_strings(path@)));
                            assert(view_frame(top) == SpecFrame {
                                next: t0.next + 1,
                                pending: view_strings(path@),
                                ..t0
                            });
                            assert(self.model().frames == with_top(m.frames, view_frame(top)));
                            assert(imports_named(m.frames.last().items));
                            assert(m.frames.last().items[k as int] matches SpecTopLevel::Import(pp) ==> pp.len() > 0);
                            assert forall|j: int| 0 <= j < self.model().frames.len() implies 0 <= #[trigger] self.model().frames[j].next <= self.model().frames[j].items.len() by {
                                if j < m.frames.len() - 1 {
                                    assert(self.model().frames[j] == m.frames[j]);
                                }
                            }
                            assert forall|j: int| 0 <= j < self.model().frames.len() implies imports_named(#[trigger] self.model().frames[j].items) by {
                                if j < m.frames.len() - 1 {
                                    assert(self.model().frames[j] == m.frames[j]);
                                }
                            }
                            assert forall|j: int| 0 <= j < self.model().frames.len() - 1 implies #[trigger] self.model().frames[j].pending.len() > 0 by {
                                assert(self.model().frames[j] == m.frames[j]);
                            }
                        }
                        proof {
                            let t0 = m.frames.last();
                            assert(0 <= t0.next < t0.items.len());
                            assert(view_request(ImportRequest::Locate { dir, path: p2 }) == SpecRequest::Locate {
                                dir: t0.dir,
                                path: view_strings(path@),
                            });
                            assert(self.model() == SpecResolver {
                                frames: with_top(m.frames, SpecFrame { next: t0.next + 1, pending: view_strings(path@), ..t0 }),
                                phase: ImportPhase::Locating,
                                ..m
                            });
                        }
                        return ImportRequest::Locate { dir, path: p2 };
                    },
                    _ => {
                        top.next = k + 1;
                        proof {
                            crate::duplicate::lemma_view_toplevels_push(top.resolved@, item);
                        }
                        top.resolved.push(item);
                        proof {
                            lemma_replace_top(v, top);
                            assert(m.frames[m.frames.len() - 1].items[k as int] == view_toplevel(item));
                        }
                        self.frames.push(top);
                        proof {
                            assert(self.model().frames == with_top(m.frames, view_frame(top)));
                            lemma_with_top(m.frames, view_frame(top));
                            assert forall|j: int| 0 <= j < self.model().frames.len() implies 0 <= #[trigger] self.model().frames[j].next <= self.model().frames[j].items.len() by {
                                if j < m.frames.len() - 1 {
                                    assert(self.model().frames[j] == m.frames[j]);
                                }
                            }
                            assert forall|j: int| 0 <= j < self.model().frames.len() implies imports_named(#[trigger] self.model().frames[j].items) by {
                                if j < m.frames.len() - 1 {
                                    assert(self.model().frames[j] == m.frames[j]);
                                }
                            }
                            assert forall|j: int| 0 <= j < self.model().frames.len() - 1 implies #[trigger] self.model().frames[j].pending.len() > 0 by {
                                assert(self.model().frames[j] == m.frames[j]);
                            }
                            assert(remaining(self.model().frames) == remaining(m.frames.drop_last()) + left(view_frame(top)));
                            assert(remaining(m.frames) == remaining(m.frames.drop_last()) + left(m.frames.last()));
                            let t0 = m.frames.last();
                            assert(view_toplevel(item) !is Import);
                            assert(view_frame(top) == SpecFrame {
                                next: t0.next + 1,
                                resolved: t0.resolved.push(t0.items[t0.next]),
                                ..t0
                            });
                            assert(advance(m) == advance(self.model()));
                        }
                    },
                }
            } else {
                let done = merge_toplevels(top.resolved);
                if self.frames.len() == 0 {
                    self.phase = ImportPhase::Finished;
                    proof {
                        assert(self.model().frames == m.frames.drop_last());
                        assert(!(0 <= m.frames.last().next < m.frames.last().items.len()));
                        assert(view_request(ImportRequest::Done(done)) == SpecRequest::Done(
                            merged(m.frames.last().resolved),
                        ));
                        assert(self.model() == SpecResolver {
                            frames: m.frames.drop_last(),
                            phase: ImportPhase::Finished,
                            ..m
                        });
                        assert(m.frames.len() > 0);
                        assert(m.frames.drop_last().len() == 0);
                        assert(advance(m) == (self.model(), view_request(ImportRequest::Done(done))));
                    }
                    return ImportRequest::Done(done);
                }
                let ghost rest = self.frames@;
                proof {
                    lemma_pop(rest);
                }
                let mut parent = self.frames.pop().unwrap();
                proof {
                    assert(m.frames.drop_last().last() == view_frame(parent));
                    assert(m.frames[m.frames.len() - 2] == view_frame(parent));
                }
                let nm = nest_module(&parent.pending, done);
                proof {
                    lemma_view_toplevels_push(parent.resolved@, nm);
                }
                parent.resolved.push(nm);
                proof {
                    lemma_replace_top(rest, parent);
                }
                self.frames.push(parent);
                proof {
                    let r2 = m.frames.drop_last();
                    assert(self.model().frames == with_top(r2, view_frame(parent)));
                    lemma_with_top(r2, view_frame(parent));
                    assert forall|j: int| 0 <= j < self.model().frames.len() implies 0 <= #[trigger] self.model().frames[j].next <= self.model().frames[j].items.len() by {
                        if j < r2.len() - 1 {
                            assert(self.model().frames[j] == m.frames[j]);
                        }
                    }
                    assert forall|j: int| 0 <= j < self.model().frames.len() implies imports_named(#[trigger] self.model().frames[j].items) by {
                        if j < r2.len() - 1 {
                            assert(self.model().frames[j] == m.frames[j]);
                        }
                    }
                    assert forall|j: int| 0 <= j < self.model().frames.len() - 1 implies #[trigger] self.model().frames[j].pending.len() > 0 by {
                        assert(self.model().frames[j] == m.frames[j]);
                    }
                    assert(remaining(self.model().frames) == remaining(r2.drop_last()) + left(view_frame(parent)));
                    assert(remaining(r2) == remaining(r2.drop_last()) + left(r2.last()));
                    assert(remaining(m.frames) == remaining(r2) + left(m.frames.last()));
                    let p0 = r2.last();
                    let p2 = SpecFrame {
                        resolved: p0.resolved.push(nested(p0.pending, merged(m.frames.last().resolved))),
                        ..p0
                    };
                    assert(view_frame(parent) == p2);
                    let x = SpecResolver { frames: with_top(r2, p2), ..m };
                    assert(!(0 <= m.frames.last().next < m.frames.last().items.len()));
                    assert(r2.len() > 0);
                    assert(advance(m) == advance(x));
                    assert(self.model() == x);
                    assert(advance(m) == advance(self.model()));
                }
            }
        }
    }

    /// The key and label of the file of the import in progress.
    pub fn located(&mut self, key: String, label: String) -> (q: ImportRequest)
        requires
            well_formed(old(self).model()),
            old(self).model().phase == ImportPhase::Locating,
        ensures
            (final(self).model(), view_request(q)) == on_located(old(self).model(), key@, label@),
            well_formed(final(self).model()),
    {
        let ghost m = self.model();
        let ghost v = self.frames@;
        proof {
            lemma_pop(v);
        }
        let known = contains_key(&self.loaded, &key);
        let mut top = self.frames.pop().unwrap();
        let ghost t0 = view_frame(top);
        proof {
            assert(t0 == m.frames.last());
        }
        if known {
            let imp = TopLevel::Import(dup_strings(&top.pending));
            proof {
                lemma_view_toplevels_push(top.resolved@, imp);
            }
            top.resolved.push(imp);
            proof {
                lemma_replace_top(v, top);
            }
            self.frames.push(top);
            self.phase = ImportPhase::Working;
            proof {
                assert(self.model().frames == with_top(m.frames, view_frame(top)));
                assert(view_frame(top).next == t0.next && view_frame(top).items == t0.items
                    && view_frame(top).pending == t0.pending);
                lemma_with_top(m.frames, view_frame(top));
                assert forall|j: int| 0 <= j < self.model().frames.len() implies 0 <= #[trigger] self.model().frames[j].next <= self.model().frames[j].items.len() by {
                    if j < m.frames.len() - 1 {
                        assert(self.model().frames[j] == m.frames[j]);
                    }
                }
                assert forall|j: int| 0 <= j < self.model().frames.len() implies imports_named(#[trigger] self.model().frames[j].items) by {
                    if j < m.frames.len() - 1 {
                        assert(self.model().frames[j] == m.frames[j]);
                    }
                }
                assert forall|j: int| 0 <= j < self.model().frames.len() - 1 implies #[trigger] self.model().frames[j].pending.len() > 0 by {
                    assert(self.model().frames[j] == m.frames[j]);
                }
            }
            self.advance_exec()
        } else {
            top.key = key;
            top.label = label;
            proof {
                lemma_replace_top(v, top);
            }
            self.frames.push(top);
            self.phase = ImportPhase::Reading;
            proof {
                assert(self.model().frames == with_top(m.frames, view_frame(top)));
                assert(view_frame(top).next == t0.next && view_frame(top).items == t0.items
                    && view_frame(top).pending == t0.pending);
                lemma_with_top(m.frames, view_frame(top));
                assert forall|j: int| 0 <= j < self.model().frames.len() implies 0 <= #[trigger] self.model().frames[j].next <= self.model().frames[j].items.len() by {
                    if j < m.frames.len() - 1 {
                        assert(self.model().frames[j] == m.frames[j]);
                    }
                }
                assert forall|j: int| 0 <= j < self.model().frames.len() implies imports_named(#[trigger] self.model().frames[j].items) by {
                    if j < m.frames.len() - 1 {
                        assert(self.model().frames[j] == m.frames[j]);
                    }
                }
                assert forall|j: int| 0 <= j < self.model().frames.len() - 1 implies #[trigger] self.model().frames[j].pending.len() > 0 by {
                    assert(self.model().frames[j] == m.frames[j]);
                }
            }
            ImportRequest::Read { dir: self.dirs }
        }
    }

    /// The text of the file found last, or why it could not be read.
    pub fn read(&mut self, text: Result<String, String>) -> (q: ImportRequest)
        requires
            well_formed(old(self).model()),
            old(self).model().phase == ImportPhase::Reading,
            old(self).model().dirs < usize::MAX,
        ensures
            (final(self).model(), view_request(q)) == on_read(
                old(self).model(),
                match text {
                    Ok(t) => Ok(t@),
                    Err(e) => Err(e@),
                },
            ),
            well_formed(final(self).model()),
    {
        let ghost m = self.model();
        let ghost v = self.frames@;
        proof {
            lemma_pop(v);
        }
        let last = self.frames.len() - 1;
        match text {
            Err(e) => {
                let mut msg = str_to_string("Modül okunamadı: ");
                push_str(&mut msg, self.frames[last].label.as_str());
                push_str(&mut msg, " - ");
                push_str(&mut msg, e.as_str());
                self.phase = ImportPhase::Finished;
                ImportRequest::Failed(msg)
            },
            Ok(t) => {
                let content = strip_bom(t.as_str());
                match parse_program(content.as_str()) {
                    Err(pe) => {
                        let mut msg = str_to_string("Syntax Hatası (");
                        push_str(&mut msg, self.frames[last].label.as_str());
                        push_str(&mut msg, "):\nParseError { position: ");
                        let n = usize_to_string(pe.position);
                        push_str(&mut msg, n.as_str());
                        push_str(&mut msg, " }");
                        self.phase = ImportPhase::Finished;
                        ImportRequest::Failed(msg)
                    },
                    Ok((_, fs)) => {
                        let items = function_items(&fs);
                        let key = self.frames[last].key.clone();
                        let ghost loaded0 = self.loaded@;
                        self.loaded.push(key);
                        proof {
                            assert(view_strings(self.loaded@) =~= view_strings(loaded0).push(
                                m.frames.last().key,
                            ));
                        }
                        let f = Frame {
                            items,
                            next: 0,
                            resolved: Vec::new(),
                            dir: self.dirs,
                            pending: Vec::new(),
                            key: String::new(),
                            label: String::new(),
                        };
                        proof {
                            lemma_push(v, f);
                            assert(view_toplevels(Seq::<TopLevel>::empty()) =~= Seq::<SpecTopLevel>::empty());
                            assert(view_strings(Seq::<String>::empty()) =~= Seq::<Seq<char>>::empty());
                        }
                        self.frames.push(f);
                        self.dirs = self.dirs + 1;
                        self.phase = ImportPhase::Working;
                        proof {
                            let nf = view_frame(f);
                            assert(self.model().frames == m.frames.push(nf));
                            assert forall|i: int| 0 <= i < nf.items.len() implies (#[trigger] nf.items[i] matches SpecTopLevel::Import(p) ==> p.len() > 0) by {
                                assert(nf.items[i] == SpecTopLevel::Function(view_functions(fs@)[i]));
                            }
                            assert forall|j: int| 0 <= j < self.model().frames.len() implies 0 <= #[trigger] self.model().frames[j].next <= self.model().frames[j].items.len() by {
                                if j < m.frames.len() {
                                    assert(self.model().frames[j] == m.frames[j]);
                                }
                            }
                            assert forall|j: int| 0 <= j < self.model().frames.len() implies imports_named(#[trigger] self.model().frames[j].items) by {
                                if j < m.frames.len() {
                                    assert(self.model().frames[j] == m.frames[j]);
                                }
                            }
                            assert forall|j: int| 0 <= j < self.model().frames.len() - 1 implies #[trigger] self.model().frames[j].pending.len() > 0 by {
                                assert(self.model().frames[j] == m.frames[j]);
                            }
                        }
                        self.advance_exec()
                    },
                }
            },
        }
    }
}

} // verus!
