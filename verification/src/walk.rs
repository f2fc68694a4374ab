//! Reading the files of a volume, to be sent with the request for a container.

use crate::container::InlineFileInfo;
use crate::paths;
use crate::text;
use vstd::prelude::*;

verus! {

/// What stands at a path. Links are not followed: they are something else.
#[derive(Debug, Clone, Copy, PartialEq, Eq, Structural)]
pub enum EntryKind {
    Directory,
    File,
    Other,
}

/// A file of a volume.
pub struct FileView {
    pub path: Seq<char>,
    pub content: Seq<u8>,
    pub mode: u32,
}

/// What a list of files is.
pub open spec fn file_views(v: Seq<InlineFileInfo>) -> Seq<FileView> {
    Seq::new(
        v.len(),
        |i: int| FileView { path: v[i].path@, content: v[i].content@, mode: v[i].mode },
    )
}

/// How far reading a volume has come.
#[derive(Debug, Clone, Copy, PartialEq, Eq, Structural)]
pub enum WalkPhase {
    /// The volume's source is being looked at.
    StatSource,
    /// The source is a file, and is being read.
    ReadSource,
    /// An entry is being looked at.
    Stat,
    /// A directory is being listed.
    List,
    /// A file is being read.
    Read,
    Done,
    Failed,
}

/// What to do next.
#[derive(Debug)]
pub enum WalkAction {
    /// See what stands at this path.
    Stat(String),
    /// List this directory.
    List(String),
    /// Read this file, and its mode.
    Read(String),
    /// Nothing: all files have been read.
    Done,
    /// Nothing: the volume could not be read.
    Fail,
}

/// What came of an action; nothing where it failed.
#[derive(Debug)]
pub enum WalkEvent {
    Kind(Option<EntryKind>),
    /// The names in a directory.
    Names(Option<Vec<String>>),
    /// The content and the mode of a file.
    Content(Option<(Vec<u8>, u32)>),
}

/// What came of an action; nothing where it failed.
pub enum WalkEventView {
    Kind(Option<EntryKind>),
    Names(Option<Seq<Seq<char>>>),
    Content(Option<(Seq<u8>, u32)>),
}

impl View for WalkEvent {
    type V = WalkEventView;

    open spec fn view(&self) -> WalkEventView {
        match *self {
            WalkEvent::Kind(k) => WalkEventView::Kind(k),
            WalkEvent::Names(Some(n)) => WalkEventView::Names(Some(text::strings(n@))),
            WalkEvent::Names(None) => WalkEventView::Names(None),
            WalkEvent::Content(Some(c)) => WalkEventView::Content(Some((c.0@, c.1))),
            WalkEvent::Content(None) => WalkEventView::Content(None),
        }
    }
}

/// A volume that is being read.
#[derive(Debug)]
pub struct VolumeWalk {
    source: String,
    pending: Vec<String>,
    current: String,
    files: Vec<InlineFileInfo>,
    phase: WalkPhase,
}

/// The state of a volume that is being read. All paths but the source are relative to it.
#[verifier::ext_equal]
pub struct WalkView {
    pub source: Seq<char>,
    /// The entries still to be looked at, the next one last.
    pub pending: Seq<Seq<char>>,
    pub current: Seq<char>,
    pub files: Seq<FileView>,
    pub phase: WalkPhase,
}

impl View for VolumeWalk {
    type V = WalkView;

    closed spec fn view(&self) -> WalkView {
        WalkView {
            source: self.source@,
            pending: text::strings(self.pending@),
            current: self.current@,
            files: file_views(self.files@),
            phase: self.phase,
        }
    }
}

/// The entries of a directory, the first one last.
pub open spec fn stacked(dir: Seq<char>, names: Seq<Seq<char>>) -> Seq<Seq<char>> {
    Seq::new(names.len(), |i: int| paths::joined(dir, names[names.len() - 1 - i]))
}

impl WalkView {
    pub open spec fn to(self, phase: WalkPhase) -> WalkView {
        WalkView { phase, ..self }
    }

    /// Where an entry is on the host.
    pub open spec fn place(self, entry: Seq<char>) -> Seq<char> {
        if entry.len() == 0 {
            self.source
        } else {
            paths::joined(self.source, entry)
        }
    }

    /// The state in which the next entry is looked at.
    pub open spec fn next(self) -> WalkView {
        if self.pending.len() == 0 {
            WalkView { current: Seq::empty(), ..self }.to(WalkPhase::Done)
        } else {
            WalkView {
                current: self.pending.last(),
                pending: self.pending.drop_last(),
                ..self
            }.to(WalkPhase::Stat)
        }
    }

    /// The state with another file.
    pub open spec fn with_file(self, path: Seq<char>, content: Seq<u8>, mode: u32) -> WalkView {
        WalkView { files: self.files.push(FileView { path, content, mode }), ..self }
    }

    /// Whether `a` is what is asked for in the phase.
    pub open spec fn asks(self, a: WalkAction) -> bool {
        match self.phase {
            WalkPhase::StatSource => a matches WalkAction::Stat(p) && p@ == self.source,
            WalkPhase::ReadSource => a matches WalkAction::Read(p) && p@ == self.source,
            WalkPhase::Stat => a matches WalkAction::Stat(p) && p@ == self.place(self.current),
            WalkPhase::List => a matches WalkAction::List(p) && p@ == self.place(self.current),
            WalkPhase::Read => a matches WalkAction::Read(p) && p@ == self.place(self.current),
            WalkPhase::Done => a == WalkAction::Done,
            WalkPhase::Failed => a == WalkAction::Fail,
        }
    }

    /// The state after an event. An event that is not waited for changes nothing.
    pub open spec fn after(self, event: WalkEventView) -> WalkView {
        match (self.phase, event) {
            (WalkPhase::StatSource, WalkEventView::Kind(k)) => match k {
                Some(EntryKind::Directory) => WalkView { current: Seq::empty(), ..self }.to(
                    WalkPhase::List,
                ),
                Some(EntryKind::File) => self.to(WalkPhase::ReadSource),
                Some(EntryKind::Other) => self.to(WalkPhase::Done),
                None => self.to(WalkPhase::Failed),
            },
            (WalkPhase::ReadSource, WalkEventView::Content(c)) => match c {
                Some(f) => self.with_file(paths::file_name(self.source), f.0, f.1).to(
                    WalkPhase::Done,
                ),
                None => self.to(WalkPhase::Failed),
            },
            (WalkPhase::Stat, WalkEventView::Kind(k)) => match k {
                Some(EntryKind::Directory) => self.to(WalkPhase::List),
                Some(EntryKind::File) => self.to(WalkPhase::Read),
                Some(EntryKind::Other) => self.next(),
                None => self.to(WalkPhase::Failed),
            },
            (WalkPhase::List, WalkEventView::Names(n)) => match n {
                Some(names) => WalkView {
                    pending: self.pending + stacked(self.current, names),
                    ..self
                }.next(),
                None => self.to(WalkPhase::Failed),
            },
            (WalkPhase::Read, WalkEventView::Content(c)) => match c {
                Some(f) => self.with_file(self.current, f.0, f.1).next(),
                None => self.to(WalkPhase::Failed),
            },
            _ => self,
        }
    }
}

impl VolumeWalk {
    /// Starts reading the volume at a source.
    pub fn new(source: &str) -> (res: Self)
        ensures
            res@ == (WalkView {
                source: source@,
                pending: Seq::empty(),
                current: Seq::empty(),
                files: Seq::empty(),
                phase: WalkPhase::StatSource,
            }),
    {
        let res: Self = VolumeWalk {
            source: source.to_owned(),
            pending: Vec::new(),
            current: String::new(),
            files: Vec::new(),
            phase: WalkPhase::StatSource,
        };
        assert(res@.current =~= Seq::empty());
        assert(res@.pending =~= Seq::empty());
        assert(res@.files =~= Seq::empty());
        res
    }

    fn place(&self) -> (res: String)
        ensures
            res@ == self@.place(self@.current),
    {
        if self.current.as_str().is_empty() {
            self.source.clone()
        } else {
            paths::join(self.source.as_str(), self.current.as_str())
        }
    }

    /// What to do next.
    pub fn action(&self) -> (res: WalkAction)
        ensures
            self@.asks(res),
    {
        match self.phase {
            WalkPhase::StatSource => WalkAction::Stat(self.source.clone()),
            WalkPhase::ReadSource => WalkAction::Read(self.source.clone()),
            WalkPhase::Stat => WalkAction::Stat(self.place()),
            WalkPhase::List => WalkAction::List(self.place()),
            WalkPhase::Read => WalkAction::Read(self.place()),
            WalkPhase::Done => WalkAction::Done,
            WalkPhase::Failed => WalkAction::Fail,
        }
    }

    fn next(&mut self)
        ensures
            final(self)@ == old(self)@.next(),
    {
        let ghost before = self@;
        match self.pending.pop() {
            Some(entry) => {
                self.current = entry;
                self.phase = WalkPhase::Stat;
                assert(self@.current == before.pending.last());
                assert(self@.pending =~= before.pending.drop_last());
            },
            None => {
                self.current = String::new();
                self.phase = WalkPhase::Done;
                assert(self@.current =~= Seq::empty());
                assert(self@.pending =~= before.pending);
            },
        }
        assert(self@ =~= before.next());
    }

    fn add_file(&mut self, path: String, content: Vec<u8>, mode: u32)
        ensures
            final(self)@ == old(self)@.with_file(path@, content@, mode),
    {
        let ghost before = self@;
        let ghost f = FileView { path: path@, content: content@, mode };
        self.files.push(InlineFileInfo { path, content, mode });
        assert(self@.files =~= before.files.push(f));
    }

    fn add_names(&mut self, names: &Vec<String>)
        ensures
            final(self)@ == (WalkView {
                pending: old(self)@.pending + stacked(old(self)@.current, text::strings(names@)),
                ..old(self)@
            }),
    {
        let ghost before = self@;
        let ghost ns = text::strings(names@);
        let ghost all = stacked(before.current, ns);
        let mut i: usize = names.len();
        assert(all.take(0) =~= Seq::empty());
        while i > 0
            invariant
                i <= names@.len(),
                ns == text::strings(names@),
                all == stacked(before.current, ns),
                self@ == (WalkView { pending: self@.pending, ..before }),
                self@.pending =~= before.pending + all.take(names@.len() - i),
            decreases i,
        {
            i -= 1;
            let ghost was = self@.pending;
            assert(names@[i as int]@ == ns[i as int]);
            let child: String = paths::join(self.current.as_str(), names[i].as_str());
            let ghost cv = child@;
            self.pending.push(child);
            assert(self@.pending =~= was.push(cv));
            assert(all[names@.len() - 1 - i] == cv);
            assert(all.take(names@.len() - i) =~= all.take(names@.len() - 1 - i).push(cv));
        }
        assert(all.take(names@.len() as int) =~= all);
    }

    /// Takes in what came of the last action.
    pub fn step(&mut self, event: WalkEvent)
        ensures
            final(self)@ == old(self)@.after(event@),
    {
        match self.phase {
            WalkPhase::StatSource => {
                if let WalkEvent::Kind(k) = event {
                    match k {
                        Some(EntryKind::Directory) => {
                            self.current = String::new();
                            assert(self.current@ =~= Seq::<char>::empty());
                            self.phase = WalkPhase::List;
                        },
                        Some(EntryKind::File) => {
                            self.phase = WalkPhase::ReadSource;
                        },
                        Some(EntryKind::Other) => {
                            self.phase = WalkPhase::Done;
                        },
                        None => {
                            self.phase = WalkPhase::Failed;
                        },
                    }
                }
            },
            WalkPhase::ReadSource => {
                if let WalkEvent::Content(c) = event {
                    match c {
                        Some((content, mode)) => {
                            let name: String = paths::file_name_of(self.source.as_str());
                            self.add_file(name, content, mode);
                            self.phase = WalkPhase::Done;
                        },
                        None => {
                            self.phase = WalkPhase::Failed;
                        },
                    }
                }
            },
            WalkPhase::Stat => {
                if let WalkEvent::Kind(k) = event {
                    match k {
                        Some(EntryKind::Directory) => {
                            self.phase = WalkPhase::List;
                        },
                        Some(EntryKind::File) => {
                            self.phase = WalkPhase::Read;
                        },
                        Some(EntryKind::Other) => self.next(),
                        None => {
                            self.phase = WalkPhase::Failed;
                        },
                    }
                }
            },
            WalkPhase::List => {
                if let WalkEvent::Names(n) = event {
                    match n {
                        Some(names) => {
                            self.add_names(&names);
                            self.next();
                        },
                        None => {
                            self.phase = WalkPhase::Failed;
                        },
                    }
                }
            },
            WalkPhase::Read => {
                if let WalkEvent::Content(c) = event {
                    match c {
                        Some((content, mode)) => {
                            let path: String = self.current.clone();
                            self.add_file(path, content, mode);
                            self.next();
                        },
                        None => {
                            self.phase = WalkPhase::Failed;
                        },
                    }
                }
            },
            WalkPhase::Done => {},
            WalkPhase::Failed => {},
        }
    }

    /// Hands over the files that were read.
    pub fn into_files(self) -> (res: Vec<InlineFileInfo>)
        ensures
            file_views(res@) == self@.files,
    {
        self.files
    }
}

/// What stands below a path. A directory has names, and below each of them a tree.
pub enum Tree {
    File(Seq<u8>, u32),
    Directory(Seq<Seq<char>>, Seq<Tree>),
    Other,
}

/// The files of the first `n` entries of a directory.
pub open spec fn files_in(
    dir: Seq<char>,
    names: Seq<Seq<char>>,
    trees: Seq<Tree>,
    n: nat,
) -> Seq<FileView>
    decreases trees, n,
{
    if n == 0 || n > trees.len() {
        Seq::empty()
    } else {
        files_in(dir, names, trees, (n - 1) as nat) + files_of(
            paths::joined(dir, names[n - 1]),
            trees[n - 1],
        )
    }
}

/// The files of a tree, each with its path, in the order of the listings.
pub open spec fn files_of(path: Seq<char>, tree: Tree) -> Seq<FileView>
    decreases tree, 0nat,
{
    match tree {
        Tree::File(content, mode) => seq![FileView { path, content, mode }],
        Tree::Directory(names, trees) => files_in(path, names, trees, trees.len()),
        Tree::Other => Seq::empty(),
    }
}

/// The state after the entry that is looked at was a tree, answered truthfully throughout.
pub open spec fn walked(s: WalkView, tree: Tree) -> WalkView
    decreases tree, 0nat,
{
    match tree {
        Tree::File(content, mode) => s.after(WalkEventView::Kind(Some(EntryKind::File))).after(
            WalkEventView::Content(Some((content, mode))),
        ),
        Tree::Directory(names, trees) => walked_entries(
            s.after(WalkEventView::Kind(Some(EntryKind::Directory))).after(
                WalkEventView::Names(Some(names)),
            ),
            trees,
            trees.len(),
        ),
        Tree::Other => s.after(WalkEventView::Kind(Some(EntryKind::Other))),
    }
}

/// The state after the next `n` entries were the first of these trees.
pub open spec fn walked_entries(s: WalkView, trees: Seq<Tree>, n: nat) -> WalkView
    decreases trees, n,
{
    if n == 0 || n > trees.len() {
        s
    } else {
        walked(walked_entries(s, trees, (n - 1) as nat), trees[n - 1])
    }
}

/// Whether every directory has as many trees as names.
pub open spec fn consistent(tree: Tree) -> bool
    decreases tree,
{
    match tree {
        Tree::Directory(names, trees) => names.len() == trees.len() && forall|i: int|
            0 <= i < trees.len() ==> consistent(#[trigger] trees[i]),
        _ => true,
    }
}

/// Every file below an entry is read, and nothing else: the walk adds exactly the entry's files,
/// in order, and goes on with what was pending.
pub proof fn law_walk_reads_every_file(s: WalkView, tree: Tree)
    requires
        s.phase == WalkPhase::Stat,
        consistent(tree),
    ensures
        walked(s, tree) == (WalkView { files: s.files + files_of(s.current, tree), ..s }).next(),
    decreases tree, 0nat,
{
    let goal = (WalkView { files: s.files + files_of(s.current, tree), ..s }).next();
    match tree {
        Tree::File(content, mode) => {
            assert(s.files + files_of(s.current, tree) =~= s.files.push(
                FileView { path: s.current, content, mode },
            ));
            assert(walked(s, tree) =~= goal);
        },
        Tree::Directory(names, trees) => {
            let opened = s.to(WalkPhase::List);
            let base = WalkView {
                pending: s.pending + stacked(s.current, names),
                ..opened
            };
            lemma_entries(s, base, names, trees, trees.len());
            assert(stacked(s.current, names).take(0) =~= Seq::empty());
            assert(s.pending + Seq::<Seq<char>>::empty() =~= s.pending);
            assert(walked(s, tree) =~= goal);
        },
        Tree::Other => {
            assert(s.files + files_of(s.current, tree) =~= s.files);
            assert(walked(s, tree) =~= goal);
        },
    }
}

proof fn lemma_entries(
    s: WalkView,
    base: WalkView,
    names: Seq<Seq<char>>,
    trees: Seq<Tree>,
    n: nat,
)
    requires
        n <= trees.len(),
        names.len() == trees.len(),
        forall|i: int| 0 <= i < trees.len() ==> consistent(#[trigger] trees[i]),
        base == (WalkView {
            pending: s.pending + stacked(s.current, names),
            ..s.to(WalkPhase::List)
        }),
    ensures
        walked_entries(base.next(), trees, n) == (WalkView {
            pending: s.pending + stacked(s.current, names).take(names.len() - n),
            files: s.files + files_in(s.current, names, trees, n),
            ..base
        }).next(),
    decreases trees, n,
{
    let all = stacked(s.current, names);
    if n == 0 {
        assert(all.take(names.len() as int) =~= all);
        assert(s.files + Seq::<FileView>::empty() =~= s.files);
    } else {
        let k = (n - 1) as nat;
        lemma_entries(s, base, names, trees, k);
        let before = WalkView {
            pending: s.pending + all.take(names.len() - k),
            files: s.files + files_in(s.current, names, trees, k),
            ..base
        };
        assert(before.pending.last() == paths::joined(s.current, names[k as int]));
        assert(before.pending.drop_last() =~= s.pending + all.take(names.len() - n));
        law_walk_reads_every_file(before.next(), trees[k as int]);
        let added = files_of(paths::joined(s.current, names[k as int]), trees[k as int]);
        assert(before.files + added =~= s.files + files_in(s.current, names, trees, n));
    }
}

/// A volume that is a file is that one file, under its own name; one that is a directory is walked
/// from its top; anything else has no files, and what cannot be looked at fails the walk.
pub proof fn law_walk_starts_at_source(s: WalkView, content: Seq<u8>, mode: u32)
    requires
        s.phase == WalkPhase::StatSource,
    ensures
        ({
            let t = s.after(WalkEventView::Kind(Some(EntryKind::File))).after(
                WalkEventView::Content(Some((content, mode))),
            );
            &&& t.phase == WalkPhase::Done
            &&& t.files.len() == s.files.len() + 1
            &&& t.files.last().content == content && t.files.last().mode == mode
            &&& t.files.last().path == paths::file_name(s.source)
        }),
        s.after(WalkEventView::Kind(Some(EntryKind::Directory))).phase == WalkPhase::List,
        s.after(WalkEventView::Kind(Some(EntryKind::Directory))).current.len() == 0,
        s.after(WalkEventView::Kind(Some(EntryKind::Other))).phase == WalkPhase::Done,
        s.after(WalkEventView::Kind(Some(EntryKind::Other))).files == s.files,
        s.after(WalkEventView::Kind(None)).phase == WalkPhase::Failed,
{
}

/// Every name in a directory that is listed is looked at below that directory, in the order of the
/// names and before what was still to be looked at.
pub proof fn law_listed_names_are_walked(s: WalkView, names: Seq<Seq<char>>, i: int)
    requires
        s.phase == WalkPhase::List,
        names.len() > 0,
        0 <= i < names.len(),
    ensures
        ({
            let t = s.after(WalkEventView::Names(Some(names)));
            &&& t.phase == WalkPhase::Stat
            &&& t.current == paths::joined(s.current, names[0])
            &&& t.pending.len() == s.pending.len() + names.len() - 1
            &&& i > 0 ==> t.pending[t.pending.len() - i] == paths::joined(s.current, names[i])
            &&& t.pending.take(s.pending.len() as int) == s.pending
            &&& t.files == s.files
        }),
{
    let t = s.after(WalkEventView::Names(Some(names)));
    let all = s.pending + stacked(s.current, names);
    assert(all.last() == paths::joined(s.current, names[0]));
    assert(t.pending.take(s.pending.len() as int) =~= s.pending);
}

/// A file is kept under its path below the volume, with what was read and its permissions; a failure
/// to look, to list or to read fails the walk. The files that were read before stay.
pub proof fn law_walk_keeps_files(s: WalkView, content: Seq<u8>, mode: u32, a: WalkAction)
    ensures
        s.phase == WalkPhase::Read ==> {
            let t = s.after(WalkEventView::Content(Some((content, mode))));
            &&& t.files == s.files.push(FileView { path: s.current, content, mode })
            &&& t.phase == if s.pending.len() > 0 {
                WalkPhase::Stat
            } else {
                WalkPhase::Done
            }
            &&& s.pending.len() > 0 ==> t.current == s.pending.last()
        },
        s.phase == WalkPhase::Read ==> s.after(WalkEventView::Content(None)).phase
            == WalkPhase::Failed,
        s.phase == WalkPhase::List ==> s.after(WalkEventView::Names(None)).phase
            == WalkPhase::Failed,
        s.phase == WalkPhase::Stat ==> s.after(WalkEventView::Kind(None)).phase
            == WalkPhase::Failed,
        s.phase == WalkPhase::Stat ==> s.after(
            WalkEventView::Kind(Some(EntryKind::Directory)),
        ).phase == WalkPhase::List && s.after(WalkEventView::Kind(Some(EntryKind::File))).phase
            == WalkPhase::Read,
        s.phase == WalkPhase::Read && s.current.len() > 0 && s.asks(a) ==> (
        a matches WalkAction::Read(p) && p@ == paths::joined(s.source, s.current)),
        s.phase == WalkPhase::List && s.current.len() == 0 && s.asks(a) ==> (
        a matches WalkAction::List(p) && p@ == s.source),
        s.phase == WalkPhase::List && s.current.len() > 0 && s.asks(a) ==> (
        a matches WalkAction::List(p) && p@ == paths::joined(s.source, s.current)),
{
}

/// A walk looks at the source first, and tells its end: that all files were read, or that they could
/// not be.
pub proof fn law_walk_asks(s: WalkView, a: WalkAction)
    requires
        s.asks(a),
    ensures
        s.phase == WalkPhase::StatSource ==> (a matches WalkAction::Stat(p) && p@ == s.source),
        s.phase == WalkPhase::ReadSource ==> (a matches WalkAction::Read(p) && p@ == s.source),
        s.phase == WalkPhase::Stat && s.current.len() > 0 ==> (a matches WalkAction::Stat(p) && p@
            == paths::joined(s.source, s.current)),
        s.phase == WalkPhase::Done <==> a == WalkAction::Done,
        s.phase == WalkPhase::Failed <==> a == WalkAction::Fail,
{
}

/// A file is a tree with that one file in it, and anything that is neither file nor directory one
/// without files; a directory has the files of its entries, one entry after the other, each below
/// its name.
pub proof fn law_files_of(
    path: Seq<char>,
    content: Seq<u8>,
    mode: u32,
    names: Seq<Seq<char>>,
    trees: Seq<Tree>,
)
    requires
        names.len() == trees.len(),
        trees.len() > 0,
    ensures
        consistent(Tree::File(content, mode)) && consistent(Tree::Other),
        files_of(path, Tree::File(content, mode)) == seq![FileView { path, content, mode }],
        files_of(path, Tree::Other).len() == 0,
        files_of(path, Tree::Directory(names, trees)) == files_in(
            path,
            names,
            trees,
            (trees.len() - 1) as nat,
        ) + files_of(paths::joined(path, names.last()), trees.last()),
        files_in(path, names, trees, 0).len() == 0,
{
}

} // verus!
