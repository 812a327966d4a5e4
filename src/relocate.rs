//! The relocation engine as a state machine.
//!
//! A `Relocation` decides, one step at a time, what has to happen to move
//! a source path to its destination in the tempstore: an atomic rename
//! first, and where that fails a copy of every entry of the source followed
//! by its removal. The caller performs each `Action` on the filesystem (or
//! asks the user) and hands back what came of it as an `Event`.
use vstd::prelude::*;

use crate::text::{chars_of, string_of};
use crate::util::{is_big, is_big_file, join, join_path};

verus! {

/// What is written in place of a special file the user let go.
pub const MARKER_TEXT: &'static str = "This is a marker for a file that was permanently deleted.  Requiescat in pace.";

/// What a path is, as seen without following a final symlink.
#[derive(Clone, Copy, Debug, PartialEq, Eq, Structural)]
pub enum FileKind {
    Regular,
    Directory,
    Symlink,
    Fifo,
    Special,
}

/// How an input path is turned into an absolute source path.
#[derive(Debug, PartialEq, Eq)]
pub enum Resolution {
    /// Nothing exists at the path: it is skipped.
    Missing,
    /// The path is a symlink: the link itself at this path is moved.
    Link(String),
    /// The path is to be canonicalized from this absolute form.
    Canonicalize(String),
}

/// Resolves the input `file`, relative to `cwd`, given what exists there
/// (`None` when nothing does).
pub fn resolve_source(file: &str, cwd: &str, kind: Option<FileKind>) -> (r: Resolution)
    ensures
        kind.is_none() ==> r is Missing,
        kind == Some(FileKind::Symlink) ==> (r is Link && r->Link_0@ == join_path(cwd@, file@)),
        kind.is_some() && kind != Some(FileKind::Symlink) ==> (r is Canonicalize
            && r->Canonicalize_0@ == join_path(cwd@, file@)),
{
    match kind {
        None => Resolution::Missing,
        Some(k) => {
            let joined = string_of(&join(&chars_of(cwd), &chars_of(file)));
            if k == FileKind::Symlink {
                Resolution::Link(joined)
            } else {
                Resolution::Canonicalize(joined)
            }
        },
    }
}

/// One entry of the source tree: its path relative to the source (empty
/// for the source itself), its kind, its size and its permission bits.
#[derive(Debug, PartialEq, Eq)]
pub struct Item {
    pub rel: String,
    pub kind: FileKind,
    pub len: u64,
    pub mode: u32,
}

pub struct ItemView {
    pub rel: Seq<char>,
    pub kind: FileKind,
    pub len: u64,
    pub mode: u32,
}

impl View for Item {
    type V = ItemView;

    open spec fn view(&self) -> ItemView {
        ItemView { rel: self.rel@, kind: self.kind, len: self.len, mode: self.mode }
    }
}

pub open spec fn item_views(v: Seq<Item>) -> Seq<ItemView> {
    v.map_values(|i: Item| i@)
}

/// Why a relocation stopped without moving its source.
#[derive(Clone, Copy, Debug, PartialEq, Eq, Structural)]
pub enum Failure {
    /// The destination's parent directories could not be created.
    Parents,
    /// The source tree could not be listed.
    Survey,
    /// An entry could not be copied; the source is untouched.
    Copy,
    /// The copy is complete but the source could not be removed.
    Remove,
    /// The source was moved but its ledger entry could not be written.
    Ledger,
}

/// How a relocation ended.
#[derive(Clone, Copy, Debug, PartialEq, Eq, Structural)]
pub enum Outcome {
    /// Moved into the tempstore and recorded.
    Relocated,
    /// A large file the user chose to delete for good: removed, not recorded.
    Discarded,
    Failed(Failure),
}

#[derive(Clone, Copy, Debug, PartialEq, Eq, Structural)]
pub enum Phase {
    Start,
    Renaming,
    MakingParents,
    Surveying,
    Copying,
    Asking,
    Removing,
    Recording,
    Finished(Outcome),
}

/// What came of the last action.
#[derive(Debug)]
pub enum Event {
    Done,
    Failed,
    /// The user's answer to a question.
    Answer(bool),
    /// The entries of the source, the source itself first.
    Listing(Vec<Item>),
}

/// What the caller is to do next.
#[derive(Debug, PartialEq, Eq)]
pub enum Action {
    /// Rename `from` to `to` in one atomic step.
    Rename { from: String, to: String },
    /// Create every missing parent directory of `path`.
    CreateParents { path: String },
    /// List the tree at `path` without following symlinks.
    Survey { path: String },
    CreateDir { path: String },
    /// Copy the bytes of the regular file `from` to `to`.
    CopyBytes { from: String, to: String },
    /// Create at `to` a symlink with the same target text as `from`.
    CopyLink { from: String, to: String },
    /// Create a named pipe at `path` with permission bits `mode`.
    MakeFifo { path: String, mode: u32 },
    /// Ask whether the large file `path` is to be deleted for good.
    AskDiscardBig { path: String, len: u64 },
    /// Ask whether the special file `path` is to be deleted for good.
    AskDiscardSpecial { path: String },
    /// Write a marker file at `path` for a special file that was let go.
    WriteMarker { path: String },
    RemoveTree { path: String },
    RemoveFile { path: String },
    /// Append a ledger entry for this relocation.
    Record { original: String, destination: String },
    Finish(Outcome),
}

pub enum ActionView {
    Rename { from: Seq<char>, to: Seq<char> },
    CreateParents { path: Seq<char> },
    Survey { path: Seq<char> },
    CreateDir { path: Seq<char> },
    CopyBytes { from: Seq<char>, to: Seq<char> },
    CopyLink { from: Seq<char>, to: Seq<char> },
    MakeFifo { path: Seq<char>, mode: u32 },
    AskDiscardBig { path: Seq<char>, len: u64 },
    AskDiscardSpecial { path: Seq<char> },
    WriteMarker { path: Seq<char> },
    RemoveTree { path: Seq<char> },
    RemoveFile { path: Seq<char> },
    Record { original: Seq<char>, destination: Seq<char> },
    Finish(Outcome),
}

impl View for Action {
    type V = ActionView;

    open spec fn view(&self) -> ActionView {
        match self {
            Action::Rename { from, to } => ActionView::Rename { from: from@, to: to@ },
            Action::CreateParents { path } => ActionView::CreateParents { path: path@ },
            Action::Survey { path } => ActionView::Survey { path: path@ },
            Action::CreateDir { path } => ActionView::CreateDir { path: path@ },
            Action::CopyBytes { from, to } => ActionView::CopyBytes { from: from@, to: to@ },
            Action::CopyLink { from, to } => ActionView::CopyLink { from: from@, to: to@ },
            Action::MakeFifo { path, mode } => ActionView::MakeFifo { path: path@, mode: *mode },
            Action::AskDiscardBig { path, len } => ActionView::AskDiscardBig { path: path@, len: *len },
            Action::AskDiscardSpecial { path } => ActionView::AskDiscardSpecial { path: path@ },
            Action::WriteMarker { path } => ActionView::WriteMarker { path: path@ },
            Action::RemoveTree { path } => ActionView::RemoveTree { path: path@ },
            Action::RemoveFile { path } => ActionView::RemoveFile { path: path@ },
            Action::Record { original, destination } => ActionView::Record {
                original: original@,
                destination: destination@,
            },
            Action::Finish(o) => ActionView::Finish(*o),
        }
    }
}

/// The relocation of one source path to one destination path.
pub struct Relocation {
    source: String,
    dest: String,
    phase: Phase,
    items: Vec<Item>,
    next: usize,
    discarded: bool,
}

pub struct RelocationView {
    pub source: Seq<char>,
    pub dest: Seq<char>,
    pub phase: Phase,
    pub items: Seq<ItemView>,
    /// The entry being copied.
    pub next: int,
    /// Whether the source itself was let go instead of copied.
    pub discarded: bool,
}

impl View for Relocation {
    type V = RelocationView;

    closed spec fn view(&self) -> RelocationView {
        RelocationView {
            source: self.source@,
            dest: self.dest@,
            phase: self.phase,
            items: item_views(self.items@),
            next: self.next as int,
            discarded: self.discarded,
        }
    }
}

/// The path of the entry `rel` of the tree at `base`.
pub open spec fn child(base: Seq<char>, rel: Seq<char>) -> Seq<char> {
    if rel.len() == 0 {
        base
    } else {
        join_path(base, rel)
    }
}

/// The first action for an entry of the source tree, and the phase it
/// leads to.
pub open spec fn item_step(source: Seq<char>, dest: Seq<char>, it: ItemView) -> (Phase, ActionView) {
    let from = child(source, it.rel);
    let to = child(dest, it.rel);
    match it.kind {
        FileKind::Directory => (Phase::Copying, ActionView::CreateDir { path: to }),
        FileKind::Regular => if is_big(it.len as nat) {
            (Phase::Asking, ActionView::AskDiscardBig { path: from, len: it.len })
        } else {
            (Phase::Copying, ActionView::CopyBytes { from, to })
        },
        FileKind::Symlink => (Phase::Copying, ActionView::CopyLink { from, to }),
        FileKind::Fifo => (Phase::Copying, ActionView::MakeFifo { path: to, mode: it.mode }),
        FileKind::Special => (Phase::Asking, ActionView::AskDiscardSpecial { path: from }),
    }
}

/// The removal of the source, once all of it is copied.
pub open spec fn removal(s: RelocationView) -> ActionView {
    if s.items[0].kind == FileKind::Directory {
        ActionView::RemoveTree { path: s.source }
    } else {
        ActionView::RemoveFile { path: s.source }
    }
}

pub open spec fn finish(s: RelocationView, o: Outcome) -> (RelocationView, ActionView) {
    (RelocationView { phase: Phase::Finished(o), ..s }, ActionView::Finish(o))
}

/// The entry `s.next` is settled (copied, or let go when `let_go`): go on
/// with the next entry, or remove the source after the last one.
pub open spec fn advance(s: RelocationView, let_go: bool) -> (RelocationView, ActionView) {
    let n = s.next + 1;
    let discarded = s.discarded || (let_go && s.next == 0);
    if n < s.items.len() {
        let (phase, a) = item_step(s.source, s.dest, s.items[n]);
        (RelocationView { phase, next: n, discarded, ..s }, a)
    } else {
        (RelocationView { phase: Phase::Removing, next: n, discarded, ..s }, removal(s))
    }
}

pub open spec fn record(s: RelocationView) -> ActionView {
    ActionView::Record { original: s.source, destination: s.dest }
}

/// The next state and action after event `e` in state `s`. An event other
/// than the one a phase waits for counts as a failure (or as a "no").
pub open spec fn transition(s: RelocationView, e: Event) -> (RelocationView, ActionView) {
    match s.phase {
        Phase::Start => (
            RelocationView { phase: Phase::Renaming, ..s },
            ActionView::Rename { from: s.source, to: s.dest },
        ),
        Phase::Renaming => if e is Done {
            (RelocationView { phase: Phase::Recording, ..s }, record(s))
        } else {
            (RelocationView { phase: Phase::MakingParents, ..s }, ActionView::CreateParents { path: s.dest })
        },
        Phase::MakingParents => if e is Done {
            (RelocationView { phase: Phase::Surveying, ..s }, ActionView::Survey { path: s.source })
        } else {
            finish(s, Outcome::Failed(Failure::Parents))
        },
        Phase::Surveying => match e {
            Event::Listing(v) => if v.len() > 0 {
                let items = item_views(v@);
                let (phase, a) = item_step(s.source, s.dest, items[0]);
                (RelocationView { phase, items, next: 0, discarded: false, ..s }, a)
            } else {
                finish(s, Outcome::Failed(Failure::Survey))
            },
            _ => finish(s, Outcome::Failed(Failure::Survey)),
        },
        Phase::Copying => if e is Done {
            advance(s, false)
        } else {
            finish(s, Outcome::Failed(Failure::Copy))
        },
        Phase::Asking => {
            let it = s.items[s.next];
            let yes = e == Event::Answer(true);
            if it.kind == FileKind::Regular {
                if yes {
                    advance(s, true)
                } else {
                    (
                        RelocationView { phase: Phase::Copying, ..s },
                        ActionView::CopyBytes { from: child(s.source, it.rel), to: child(s.dest, it.rel) },
                    )
                }
            } else if yes {
                (RelocationView { phase: Phase::Copying, ..s }, ActionView::WriteMarker { path: child(s.dest, it.rel) })
            } else {
                finish(s, Outcome::Failed(Failure::Copy))
            }
        },
        Phase::Removing => if e is Done {
            if s.discarded {
                finish(s, Outcome::Discarded)
            } else {
                (RelocationView { phase: Phase::Recording, ..s }, record(s))
            }
        } else {
            finish(s, Outcome::Failed(Failure::Remove))
        },
        Phase::Recording => if e is Done {
            finish(s, Outcome::Relocated)
        } else {
            finish(s, Outcome::Failed(Failure::Ledger))
        },
        Phase::Finished(o) => (s, ActionView::Finish(o)),
    }
}

/// The states a relocation can be in.
pub open spec fn well_formed(s: RelocationView) -> bool {
    &&& (s.phase is Copying || s.phase is Asking) ==> 0 <= s.next < s.items.len()
    &&& s.phase is Asking ==> (s.items[s.next].kind == FileKind::Regular
        || s.items[s.next].kind == FileKind::Special)
    &&& s.phase is Removing ==> s.items.len() > 0
    &&& 0 <= s.next <= s.items.len()
}

/// The source is only ever removed after every one of its entries has
/// been settled (copied, or let go with the user's consent), and only on
/// the report that the last of them succeeded.
pub proof fn lemma_removal_after_copies(s: RelocationView, e: Event)
    requires
        well_formed(s),
        transition(s, e).1 is RemoveTree || transition(s, e).1 is RemoveFile,
    ensures
        s.phase is Copying || s.phase is Asking,
        s.next + 1 == s.items.len(),
        e is Done || e == Event::Answer(true),
        transition(s, e).1 == removal(s),
{
}

/// A ledger entry is only asked for once the source has been moved: by the
/// rename, or by a removal that followed a full copy, and never for a file
/// the user let go.
pub proof fn lemma_record_after_move(s: RelocationView, e: Event)
    requires
        transition(s, e).1 is Record,
    ensures
        e is Done,
        s.phase is Renaming || (s.phase is Removing && !s.discarded),
        transition(s, e).1 == record(s),
{
}

/// Every entry of the source tree is copied to the same relative place
/// under the destination.
pub proof fn lemma_copies_keep_offsets(s: RelocationView, e: Event)
    requires
        well_formed(s),
        transition(s, e).1 is CopyBytes,
    ensures
        exists|rel: Seq<char>| transition(s, e).1 == (ActionView::CopyBytes {
            from: child(s.source, rel),
            to: child(s.dest, rel),
        }),
{
    if s.phase is Surveying {
        let items = item_views(e->Listing_0@);
        assert(transition(s, e).1 == item_step(s.source, s.dest, items[0]).1);
    } else if s.phase is Copying {
        assert(transition(s, e).1 == item_step(s.source, s.dest, s.items[s.next + 1]).1);
    } else if s.phase is Asking {
        let it = s.items[s.next];
        if e == Event::Answer(true) {
            assert(transition(s, e).1 == item_step(s.source, s.dest, s.items[s.next + 1]).1);
        } else {
            assert(transition(s, e).1 == (ActionView::CopyBytes {
                from: child(s.source, it.rel),
                to: child(s.dest, it.rel),
            }));
        }
    }
}

/// A source that the rename moves is recorded at once, and nothing is
/// copied or removed.
pub proof fn lemma_renamed_then_recorded(s0: RelocationView)
    requires
        s0.phase == Phase::Start,
    ensures ({
        let t1 = transition(s0, Event::Done);
        let t2 = transition(t1.0, Event::Done);
        let t3 = transition(t2.0, Event::Done);
        &&& t1.1 == (ActionView::Rename { from: s0.source, to: s0.dest })
        &&& t2.1 == (ActionView::Record { original: s0.source, destination: s0.dest })
        &&& t3.1 == ActionView::Finish(Outcome::Relocated)
    }),
{
}

/// A regular file at or under the size limit whose rename fails is copied
/// to its destination, then removed, then recorded.
pub proof fn lemma_small_file_copied(s0: RelocationView, v: Vec<Item>)
    requires
        s0.phase == Phase::Start,
        v@.len() == 1,
        v@[0]@.rel.len() == 0,
        v@[0]@.kind == FileKind::Regular,
        !is_big(v@[0]@.len as nat),
    ensures ({
        let t1 = transition(s0, Event::Done);
        let t2 = transition(t1.0, Event::Failed);
        let t3 = transition(t2.0, Event::Done);
        let t4 = transition(t3.0, Event::Listing(v));
        let t5 = transition(t4.0, Event::Done);
        let t6 = transition(t5.0, Event::Done);
        let t7 = transition(t6.0, Event::Done);
        &&& t1.1 == (ActionView::Rename { from: s0.source, to: s0.dest })
        &&& t2.1 == (ActionView::CreateParents { path: s0.dest })
        &&& t3.1 == (ActionView::Survey { path: s0.source })
        &&& t4.1 == (ActionView::CopyBytes { from: s0.source, to: s0.dest })
        &&& t5.1 == (ActionView::RemoveFile { path: s0.source })
        &&& t6.1 == (ActionView::Record { original: s0.source, destination: s0.dest })
        &&& t7.1 == ActionView::Finish(Outcome::Relocated)
    }),
{
    assert(item_views(v@)[0] == v@[0]@);
}

/// A regular file above the size limit that the user lets go instead of
/// copying is removed, and nothing is copied to the destination or recorded.
pub proof fn lemma_big_file_let_go(s0: RelocationView, v: Vec<Item>)
    requires
        s0.phase == Phase::Start,
        v@.len() == 1,
        v@[0]@.rel.len() == 0,
        v@[0]@.kind == FileKind::Regular,
        is_big(v@[0]@.len as nat),
    ensures ({
        let t1 = transition(s0, Event::Done);
        let t2 = transition(t1.0, Event::Failed);
        let t3 = transition(t2.0, Event::Done);
        let t4 = transition(t3.0, Event::Listing(v));
        let t5 = transition(t4.0, Event::Answer(true));
        let t6 = transition(t5.0, Event::Done);
        &&& t4.1 == (ActionView::AskDiscardBig { path: s0.source, len: v@[0]@.len })
        &&& t5.1 == (ActionView::RemoveFile { path: s0.source })
        &&& t6.1 == ActionView::Finish(Outcome::Discarded)
        &&& t6.0.phase == Phase::Finished(Outcome::Discarded)
    }),
{
    assert(item_views(v@)[0] == v@[0]@);
}

fn child_path(base: &String, rel: &String) -> (r: String)
    ensures
        r@ == child(base@, rel@),
{
    let rel_chars = chars_of(rel.as_str());
    if rel_chars.len() == 0 {
        base.clone()
    } else {
        string_of(&join(&chars_of(base.as_str()), &rel_chars))
    }
}

impl Relocation {
    /// A relocation of `source` to `dest`, where nothing has happened yet.
    pub fn new(source: String, dest: String) -> (r: Relocation)
        ensures
            r@.source == source@,
            r@.dest == dest@,
            r@.phase == Phase::Start,
            r@.items.len() == 0,
            well_formed(r@),
    {
        Relocation { source, dest, phase: Phase::Start, items: Vec::new(), next: 0, discarded: false }
    }

    pub fn phase(&self) -> (r: Phase)
        ensures
            r == self@.phase,
    {
        self.phase
    }

    /// Whether the relocation has come to an end.
    pub fn is_finished(&self) -> (r: bool)
        ensures
            r == (self@.phase is Finished),
    {
        matches!(self.phase, Phase::Finished(_))
    }

    fn item_action(&self, i: usize) -> (r: (Phase, Action))
        requires
            i < self.items.len(),
        ensures
            r.0 == item_step(self@.source, self@.dest, self@.items[i as int]).0,
            r.1@ == item_step(self@.source, self@.dest, self@.items[i as int]).1,
    {
        let it = &self.items[i];
        let from = child_path(&self.source, &it.rel);
        let to = child_path(&self.dest, &it.rel);
        match it.kind {
            FileKind::Directory => (Phase::Copying, Action::CreateDir { path: to }),
            FileKind::Regular => if is_big_file(it.len) {
                (Phase::Asking, Action::AskDiscardBig { path: from, len: it.len })
            } else {
                (Phase::Copying, Action::CopyBytes { from, to })
            },
            FileKind::Symlink => (Phase::Copying, Action::CopyLink { from, to }),
            FileKind::Fifo => (Phase::Copying, Action::MakeFifo { path: to, mode: it.mode }),
            FileKind::Special => (Phase::Asking, Action::AskDiscardSpecial { path: from }),
        }
    }

    fn finish(&mut self, o: Outcome) -> (r: Action)
        ensures
            final(self)@ == finish(old(self)@, o).0,
            r@ == finish(old(self)@, o).1,
    {
        self.phase = Phase::Finished(o);
        Action::Finish(o)
    }

    fn record(&self) -> (r: Action)
        ensures
            r@ == record(self@),
    {
        Action::Record { original: self.source.clone(), destination: self.dest.clone() }
    }

    fn advance(&mut self, let_go: bool) -> (r: Action)
        requires
            0 <= old(self)@.next < old(self)@.items.len(),
        ensures
            final(self)@ == advance(old(self)@, let_go).0,
            r@ == advance(old(self)@, let_go).1,
            well_formed(final(self)@),
    {
        assert(self@.items.len() == self.items@.len());
        assert(self@.next == self.next as int);
        assert(self.next < self.items.len());
        if let_go && self.next == 0 {
            self.discarded = true;
        }
        self.next = self.next + 1;
        if self.next < self.items.len() {
            let (phase, a) = self.item_action(self.next);
            self.phase = phase;
            a
        } else {
            self.phase = Phase::Removing;
            if self.items[0].kind == FileKind::Directory {
                Action::RemoveTree { path: self.source.clone() }
            } else {
                Action::RemoveFile { path: self.source.clone() }
            }
        }
    }

    /// Takes what came of the last action and says what to do next.
    pub fn step(&mut self, event: Event) -> (r: Action)
        requires
            well_formed(old(self)@),
        ensures
            well_formed(final(self)@),
            final(self)@ == transition(old(self)@, event).0,
            r@ == transition(old(self)@, event).1,
    {
        match self.phase {
            Phase::Start => {
                self.phase = Phase::Renaming;
                Action::Rename { from: self.source.clone(), to: self.dest.clone() }
            },
            Phase::Renaming => if let Event::Done = event {
                self.phase = Phase::Recording;
                self.record()
            } else {
                self.phase = Phase::MakingParents;
                Action::CreateParents { path: self.dest.clone() }
            },
            Phase::MakingParents => if let Event::Done = event {
                self.phase = Phase::Surveying;
                Action::Survey { path: self.source.clone() }
            } else {
                self.finish(Outcome::Failed(Failure::Parents))
            },
            Phase::Surveying => match event {
                Event::Listing(v) => if v.len() > 0 {
                    self.items = v;
                    self.next = 0;
                    self.discarded = false;
                    let (phase, a) = self.item_action(0);
                    self.phase = phase;
                    a
                } else {
                    self.finish(Outcome::Failed(Failure::Survey))
                },
                _ => self.finish(Outcome::Failed(Failure::Survey)),
            },
            Phase::Copying => if let Event::Done = event {
                self.advance(false)
            } else {
                self.finish(Outcome::Failed(Failure::Copy))
            },
            Phase::Asking => {
                let yes = match event {
                    Event::Answer(b) => b,
                    _ => false,
                };
                let i = self.next;
                if self.items[i].kind == FileKind::Regular {
                    if yes {
                        self.advance(true)
                    } else {
                        self.phase = Phase::Copying;
                        let from = child_path(&self.source, &self.items[i].rel);
                        let to = child_path(&self.dest, &self.items[i].rel);
                        Action::CopyBytes { from, to }
                    }
                } else if yes {
                    self.phase = Phase::Copying;
                    Action::WriteMarker { path: child_path(&self.dest, &self.items[i].rel) }
                } else {
                    self.finish(Outcome::Failed(Failure::Copy))
                }
            },
            Phase::Removing => if let Event::Done = event {
                if self.discarded {
                    self.finish(Outcome::Discarded)
                } else {
                    self.phase = Phase::Recording;
                    self.record()
                }
            } else {
                self.finish(Outcome::Failed(Failure::Remove))
            },
            Phase::Recording => if let Event::Done = event {
                self.finish(Outcome::Relocated)
            } else {
                self.finish(Outcome::Failed(Failure::Ledger))
            },
            Phase::Finished(o) => Action::Finish(o),
        }
    }
}

} // verus!
