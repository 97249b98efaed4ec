//! Directory walks: deleting what a directory holds, and adding up file sizes.
//!
//! The walk decides; the caller touches the disk. Each [`WalkAction`] says what to do next, and the
//! outcome comes back as a [`WalkEvent`]. Entries are named by numbers that the caller hands out.

use vstd::prelude::*;

verus! {

/// What a walk does with the entries it meets.
#[derive(Clone, Copy, Debug, PartialEq, Eq, Structural)]
pub enum WalkMode {
    /// Delete every file and every subdirectory, and count the bytes of the files. What lies behind
    /// a link to a directory is outside and stays untouched.
    Remove,
    /// Count the bytes of the files, also behind links.
    Measure,
}

/// The next thing to do on disk.
#[derive(Clone, Copy, Debug, PartialEq, Eq, Structural)]
pub enum WalkAction {
    /// Start listing the directory.
    Open(usize),
    /// Take the next entry of the directory's listing.
    Next(usize),
    /// Delete the file.
    RemoveFile(usize),
    /// Delete the directory, which has been walked, or the link to a directory, which has not.
    RemoveDir(usize),
    /// The walk is over.
    Done,
}

/// What happened on disk.
#[derive(Clone, Copy, Debug, PartialEq, Eq, Structural)]
pub enum WalkEvent {
    /// The listing was started.
    Opened,
    /// The directory cannot be listed.
    Unreadable,
    /// The entry is a file, or a link to one; its length, where the file system tells it.
    File { id: usize, len: Option<u64> },
    /// The entry itself is a directory.
    Dir { id: usize },
    /// The entry is a link to a directory.
    Link { id: usize },
    /// The entry is neither, or could not be read.
    Other,
    /// The listing has no more entries.
    End,
    /// The deletion was tried, with whatever success.
    Removed,
}

/// The bytes that a file counts for.
pub open spec fn counted(len: Option<u64>) -> nat {
    match len {
        Some(n) => n as nat,
        None => 0,
    }
}

/// State of a walk.
#[derive(Debug)]
pub struct Walk {
    mode: WalkMode,
    open: Vec<usize>,
    action: WalkAction,
    total: u64,
}

/// State of a walk, as the contracts see it.
pub struct WalkView {
    pub mode: WalkMode,
    /// Directories whose listing is under way, outermost first.
    pub open: Seq<usize>,
    pub action: WalkAction,
    /// Bytes counted.
    pub total: nat,
}

impl View for Walk {
    type V = WalkView;

    closed spec fn view(&self) -> WalkView {
        WalkView {
            mode: self.mode,
            open: self.open@,
            action: self.action,
            total: self.total as nat,
        }
    }
}

impl WalkView {
    /// A walk of the directory `root` that has not started.
    pub open spec fn start(mode: WalkMode, root: usize) -> WalkView {
        WalkView { mode, open: Seq::empty(), action: WalkAction::Open(root), total: 0 }
    }

    /// The action agrees with the listings under way.
    pub open spec fn wf(self) -> bool {
        match self.action {
            WalkAction::Open(_) => true,
            WalkAction::Next(dir) => self.open.len() > 0 && self.open.last() == dir,
            WalkAction::RemoveFile(_) => self.open.len() > 0 && self.mode is Remove,
            WalkAction::RemoveDir(_) => self.open.len() > 0 && self.mode is Remove,
            WalkAction::Done => self.open.len() == 0,
        }
    }

    /// The event is an outcome of the pending action.
    pub open spec fn accepts(self, event: WalkEvent) -> bool {
        match self.action {
            WalkAction::Open(_) => event is Opened || event is Unreadable,
            WalkAction::Next(_) => event is File || event is Dir || event is Link
                || event is Other || event is End,
            WalkAction::RemoveFile(_) => event is Removed,
            WalkAction::RemoveDir(_) => event is Removed,
            WalkAction::Done => false,
        }
    }

    /// What follows once `dir` has been walked and `open` are the listings still under way.
    pub open spec fn after_dir(self, dir: usize, open: Seq<usize>) -> WalkView {
        WalkView {
            open,
            action: if open.len() == 0 {
                WalkAction::Done
            } else if self.mode is Remove {
                WalkAction::RemoveDir(dir)
            } else {
                WalkAction::Next(open.last())
            },
            ..self
        }
    }

    /// The state after an event.
    pub open spec fn next(self, event: WalkEvent) -> WalkView {
        match (self.action, event) {
            (WalkAction::Open(dir), WalkEvent::Opened) => WalkView {
                open: self.open.push(dir),
                action: WalkAction::Next(dir),
                ..self
            },
            (WalkAction::Open(dir), _) => self.after_dir(dir, self.open),
            (WalkAction::Next(dir), WalkEvent::File { id, len }) => WalkView {
                total: self.total + counted(len),
                action: if self.mode is Remove {
                    WalkAction::RemoveFile(id)
                } else {
                    WalkAction::Next(dir)
                },
                ..self
            },
            (WalkAction::Next(_), WalkEvent::Dir { id }) => WalkView {
                action: WalkAction::Open(id),
                ..self
            },
            (WalkAction::Next(_), WalkEvent::Link { id }) => WalkView {
                action: if self.mode is Remove {
                    WalkAction::RemoveDir(id)
                } else {
                    WalkAction::Open(id)
                },
                ..self
            },
            (WalkAction::Next(dir), WalkEvent::End) => self.after_dir(dir, self.open.drop_last()),
            (WalkAction::Next(_), _) => self,
            (WalkAction::Done, _) => self,
            (_, _) => WalkView { action: WalkAction::Next(self.open.last()), ..self },
        }
    }

    /// The state after a sequence of events.
    pub open spec fn run(self, events: Seq<WalkEvent>) -> WalkView
        decreases events.len(),
    {
        if events.len() == 0 {
            self
        } else {
            self.next(events[0]).run(events.drop_first())
        }
    }

    /// The deletions that the walk asks for during a sequence of events, in order.
    pub open spec fn removals(self, events: Seq<WalkEvent>) -> Seq<WalkAction>
        decreases events.len(),
    {
        if events.len() == 0 {
            Seq::empty()
        } else {
            let after = self.next(events[0]);
            let now = if after.action is RemoveFile || after.action is RemoveDir {
                seq![after.action]
            } else {
                Seq::empty()
            };
            now + after.removals(events.drop_first())
        }
    }
}

impl Walk {
    /// Starts deleting all files and subdirectories inside `dir`, but not `dir` itself, and nothing
    /// that lies outside and is only linked to.
    pub fn remove_dir_contents(dir: usize) -> (walk: Walk)
        ensures
            walk@ == WalkView::start(WalkMode::Remove, dir),
            walk@.wf(),
            walk@.mode is Remove,
            walk@.action == WalkAction::Open(dir),
            walk@.open.len() == 0,
            walk@.total == 0,
    {
        let walk = Walk {
            mode: WalkMode::Remove,
            open: Vec::new(),
            action: WalkAction::Open(dir),
            total: 0,
        };
        assert(walk.open@ =~= Seq::<usize>::empty());
        walk
    }

    /// Starts adding up the sizes of all files below `dir`, links followed.
    pub fn dir_size(dir: usize) -> (walk: Walk)
        ensures
            walk@ == WalkView::start(WalkMode::Measure, dir),
            walk@.wf(),
            walk@.mode is Measure,
            walk@.action == WalkAction::Open(dir),
            walk@.open.len() == 0,
            walk@.total == 0,
    {
        let walk = Walk {
            mode: WalkMode::Measure,
            open: Vec::new(),
            action: WalkAction::Open(dir),
            total: 0,
        };
        assert(walk.open@ =~= Seq::<usize>::empty());
        walk
    }

    /// What to do next.
    pub fn action(&self) -> (action: WalkAction)
        ensures
            action == self@.action,
    {
        self.action
    }

    /// Bytes of the files met so far.
    pub fn total(&self) -> (total: u64)
        ensures
            total == self@.total,
    {
        self.total
    }

    /// Whether `event` can follow: it answers the pending action, and the byte count stays within
    /// 64 bits.
    pub fn admits(&self, event: WalkEvent) -> (ok: bool)
        ensures
            ok == (self@.accepts(event) && self@.next(event).total <= u64::MAX),
    {
        match (self.action, event) {
            (WalkAction::Open(_), WalkEvent::Opened) => true,
            (WalkAction::Open(_), WalkEvent::Unreadable) => true,
            (WalkAction::Next(_), WalkEvent::File { id: _, len }) => match len {
                Some(n) => n <= u64::MAX - self.total,
                None => true,
            },
            (WalkAction::Next(_), WalkEvent::Dir { id: _ }) => true,
            (WalkAction::Next(_), WalkEvent::Link { id: _ }) => true,
            (WalkAction::Next(_), WalkEvent::Other) => true,
            (WalkAction::Next(_), WalkEvent::End) => true,
            (WalkAction::RemoveFile(_), WalkEvent::Removed) => true,
            (WalkAction::RemoveDir(_), WalkEvent::Removed) => true,
            (_, _) => false,
        }
    }

    fn after_dir(&mut self, dir: usize)
        ensures
            final(self)@ == old(self)@.after_dir(dir, old(self)@.open),
    {
        let n: usize = self.open.len();
        self.action = if n == 0 {
            WalkAction::Done
        } else {
            match self.mode {
                WalkMode::Remove => WalkAction::RemoveDir(dir),
                WalkMode::Measure => WalkAction::Next(self.open[n - 1]),
            }
        };
    }

    /// Takes the outcome of the pending action.
    pub fn step(&mut self, event: WalkEvent)
        requires
            old(self)@.wf(),
            old(self)@.accepts(event),
            old(self)@.next(event).total <= u64::MAX,
        ensures
            final(self)@ == old(self)@.next(event),
            final(self)@.wf(),
    {
        match self.action {
            WalkAction::Open(dir) => match event {
                WalkEvent::Opened => {
                    self.open.push(dir);
                    self.action = WalkAction::Next(dir);
                },
                _ => {
                    self.after_dir(dir);
                },
            },
            WalkAction::Next(dir) => match event {
                WalkEvent::File { id, len } => {
                    match len {
                        Some(n) => {
                            self.total = self.total + n;
                        },
                        None => {},
                    }
                    match self.mode {
                        WalkMode::Remove => {
                            self.action = WalkAction::RemoveFile(id);
                        },
                        WalkMode::Measure => {},
                    }
                },
                WalkEvent::Dir { id } => {
                    self.action = WalkAction::Open(id);
                },
                WalkEvent::Link { id } => {
                    self.action = match self.mode {
                        WalkMode::Remove => WalkAction::RemoveDir(id),
                        WalkMode::Measure => WalkAction::Open(id),
                    };
                },
                WalkEvent::End => {
                    let _ = self.open.pop();
                    self.after_dir(dir);
                },
                _ => {},
            },
            WalkAction::Done => {},
            _ => {
                let n: usize = self.open.len();
                self.action = WalkAction::Next(self.open[n - 1]);
            },
        }
    }
}

/// An entry of a directory, as a walk finds it.
pub enum Node {
    File { id: usize, len: Option<u64> },
    Dir { id: usize, listing: Listing },
    /// A link to a directory, and what that directory holds.
    Link { id: usize, listing: Listing },
    Other,
}

/// What a directory holds, as a walk finds it.
pub enum Listing {
    Unreadable,
    Entries(Seq<Node>),
}

impl Node {
    /// Bytes of the files in this entry; what lies behind a link counts when measuring only.
    pub open spec fn size(self, mode: WalkMode) -> nat
        decreases self,
    {
        match self {
            Node::File { id: _, len } => counted(len),
            Node::Dir { id: _, listing } => listing.size(mode),
            Node::Link { id: _, listing } => if mode is Remove {
                0
            } else {
                listing.size(mode)
            },
            Node::Other => 0,
        }
    }

    /// What a walk sees of this entry.
    pub open spec fn events(self, mode: WalkMode) -> Seq<WalkEvent>
        decreases self,
    {
        let removed = if mode is Remove {
            seq![WalkEvent::Removed]
        } else {
            Seq::empty()
        };
        match self {
            Node::File { id, len } => seq![WalkEvent::File { id, len }] + removed,
            Node::Dir { id, listing } => seq![WalkEvent::Dir { id }] + listing.events(mode)
                + removed,
            Node::Link { id, listing } => if mode is Remove {
                seq![WalkEvent::Link { id }] + removed
            } else {
                seq![WalkEvent::Link { id }] + listing.events(mode)
            },
            Node::Other => seq![WalkEvent::Other],
        }
    }

    /// The deletions that empty and remove this entry: a directory goes after all that it holds.
    pub open spec fn removals(self) -> Seq<WalkAction>
        decreases self,
    {
        match self {
            Node::File { id, len: _ } => seq![WalkAction::RemoveFile(id)],
            Node::Dir { id, listing } => listing.removals().push(WalkAction::RemoveDir(id)),
            Node::Link { id, listing: _ } => seq![WalkAction::RemoveDir(id)],
            Node::Other => Seq::empty(),
        }
    }

    /// This entry is no link, and none lies below it.
    pub open spec fn link_free(self) -> bool
        decreases self,
    {
        match self {
            Node::Dir { id: _, listing } => listing.link_free(),
            Node::Link { id: _, listing: _ } => false,
            _ => true,
        }
    }

    /// What `removal` deletes is this entry, or lies below it and is met without passing a link.
    pub open spec fn holds(self, removal: WalkAction) -> bool
        decreases self,
    {
        match self {
            Node::File { id, len: _ } => removal == WalkAction::RemoveFile(id),
            Node::Dir { id, listing } => removal == WalkAction::RemoveDir(id) || listing.holds(
                removal,
            ),
            Node::Link { id, listing: _ } => removal == WalkAction::RemoveDir(id),
            Node::Other => false,
        }
    }
}

impl Listing {
    /// Bytes of all files below the directory, as a walk of this mode counts them.
    pub open spec fn size(self, mode: WalkMode) -> nat
        decreases self,
    {
        match self {
            Listing::Unreadable => 0,
            Listing::Entries(entries) => entries_size(entries, mode),
        }
    }

    /// What a walk sees of the directory.
    pub open spec fn events(self, mode: WalkMode) -> Seq<WalkEvent>
        decreases self,
    {
        match self {
            Listing::Unreadable => seq![WalkEvent::Unreadable],
            Listing::Entries(entries) => seq![WalkEvent::Opened] + entries_events(entries, mode)
                + seq![WalkEvent::End],
        }
    }

    /// The deletions that empty the directory.
    pub open spec fn removals(self) -> Seq<WalkAction>
        decreases self,
    {
        match self {
            Listing::Unreadable => Seq::empty(),
            Listing::Entries(entries) => entries_removals(entries),
        }
    }

    /// No link lies below.
    pub open spec fn link_free(self) -> bool
        decreases self,
    {
        match self {
            Listing::Unreadable => true,
            Listing::Entries(entries) => entries_link_free(entries),
        }
    }

    /// What `removal` deletes lies below and is met without passing a link.
    pub open spec fn holds(self, removal: WalkAction) -> bool
        decreases self,
    {
        match self {
            Listing::Unreadable => false,
            Listing::Entries(entries) => entries_hold(entries, removal),
        }
    }
}

pub open spec fn entries_size(entries: Seq<Node>, mode: WalkMode) -> nat
    decreases entries,
{
    if entries.len() == 0 {
        0
    } else {
        entries[0].size(mode) + entries_size(entries.drop_first(), mode)
    }
}

pub open spec fn entries_events(entries: Seq<Node>, mode: WalkMode) -> Seq<WalkEvent>
    decreases entries,
{
    if entries.len() == 0 {
        Seq::empty()
    } else {
        entries[0].events(mode) + entries_events(entries.drop_first(), mode)
    }
}

pub open spec fn entries_removals(entries: Seq<Node>) -> Seq<WalkAction>
    decreases entries,
{
    if entries.len() == 0 {
        Seq::empty()
    } else {
        entries[0].removals() + entries_removals(entries.drop_first())
    }
}

pub open spec fn entries_link_free(entries: Seq<Node>) -> bool
    decreases entries,
{
    entries.len() == 0 || (entries[0].link_free() && entries_link_free(entries.drop_first()))
}

pub open spec fn entries_hold(entries: Seq<Node>, removal: WalkAction) -> bool
    decreases entries,
{
    entries.len() > 0 && (entries[0].holds(removal) || entries_hold(
        entries.drop_first(),
        removal,
    ))
}

/// Running over two pieces of a sequence is running over the whole.
proof fn lemma_run_concat(w: WalkView, a: Seq<WalkEvent>, b: Seq<WalkEvent>)
    ensures
        w.run(a + b) == w.run(a).run(b),
        w.removals(a + b) == w.removals(a) + w.run(a).removals(b),
    decreases a.len(),
{
    if a.len() == 0 {
        assert(a + b =~= b);
        assert(w.removals(a) + w.run(a).removals(b) =~= w.removals(b));
    } else {
        assert((a + b).drop_first() =~= a.drop_first() + b);
        lemma_run_concat(w.next(a[0]), a.drop_first(), b);
        assert(w.removals(a + b) =~= w.removals(a) + w.run(a).removals(b));
    }
}

proof fn lemma_run_one(w: WalkView, event: WalkEvent)
    ensures
        w.run(seq![event]) == w.next(event),
        w.removals(seq![event]) == (if w.next(event).action is RemoveFile || w.next(
            event,
        ).action is RemoveDir {
            seq![w.next(event).action]
        } else {
            Seq::empty()
        }),
{
    assert(seq![event].drop_first() =~= Seq::<WalkEvent>::empty());
    reveal_with_fuel(WalkView::run, 2);
    reveal_with_fuel(WalkView::removals, 2);
    assert(w.removals(seq![event]) =~= (if w.next(event).action is RemoveFile || w.next(
        event,
    ).action is RemoveDir {
        seq![w.next(event).action]
    } else {
        Seq::empty()
    }));
}

/// What the walk of one entry comes to.
proof fn lemma_node(w: WalkView, node: Node)
    requires
        w.wf(),
        w.action is Next,
    ensures
        w.run(node.events(w.mode)) == (WalkView { total: w.total + node.size(w.mode), ..w }),
        w.removals(node.events(w.mode)) == (if w.mode is Remove {
            node.removals()
        } else {
            Seq::empty()
        }),
    decreases node,
{
    let mode = w.mode;
    let removed = if mode is Remove {
        seq![WalkEvent::Removed]
    } else {
        Seq::empty()
    };
    match node {
        Node::File { id, len } => {
            let first = WalkEvent::File { id, len };
            lemma_run_one(w, first);
            lemma_run_one(w.next(first), WalkEvent::Removed);
            lemma_run_concat(w, seq![first], removed);
        },
        Node::Dir { id, listing } => {
            let first = WalkEvent::Dir { id };
            let inside = w.next(first);
            let events = listing.events(mode);
            lemma_run_one(w, first);
            lemma_listing(inside, id, listing);
            lemma_run_concat(w, seq![first], events);
            lemma_run_concat(w, seq![first] + events, removed);
            lemma_run_one(inside.run(events), WalkEvent::Removed);
        },
        Node::Link { id, listing } => {
            let first = WalkEvent::Link { id };
            lemma_run_one(w, first);
            if mode is Remove {
                lemma_run_one(w.next(first), WalkEvent::Removed);
                lemma_run_concat(w, seq![first], removed);
            } else {
                lemma_listing(w.next(first), id, listing);
                lemma_run_concat(w, seq![first], listing.events(mode));
            }
        },
        Node::Other => {
            lemma_run_one(w, WalkEvent::Other);
        },
    }
    assert(w.run(node.events(mode)).total == w.total + node.size(w.mode));
    assert(w.removals(node.events(mode)) =~= (if mode is Remove {
        node.removals()
    } else {
        Seq::empty()
    }));
}

/// What the walk of the rest of a listing comes to.
proof fn lemma_entries(w: WalkView, entries: Seq<Node>)
    requires
        w.wf(),
        w.action is Next,
    ensures
        w.run(entries_events(entries, w.mode)) == (WalkView {
            total: w.total + entries_size(entries, w.mode),
            ..w
        }),
        w.removals(entries_events(entries, w.mode)) == (if w.mode is Remove {
            entries_removals(entries)
        } else {
            Seq::empty()
        }),
    decreases entries,
{
    if entries.len() > 0 {
        let here = entries[0].events(w.mode);
        lemma_node(w, entries[0]);
        lemma_entries(w.run(here), entries.drop_first());
        lemma_run_concat(w, here, entries_events(entries.drop_first(), w.mode));
    }
    assert(w.removals(entries_events(entries, w.mode)) =~= (if w.mode is Remove {
        entries_removals(entries)
    } else {
        Seq::empty()
    }));
}

/// What the walk of a directory comes to.
proof fn lemma_listing(w: WalkView, dir: usize, listing: Listing)
    requires
        w.wf(),
        w.action == WalkAction::Open(dir),
    ensures
        w.run(listing.events(w.mode)) == (WalkView {
            total: w.total + listing.size(w.mode),
            ..w
        }).after_dir(dir, w.open),
        w.removals(listing.events(w.mode)) == (if w.mode is Remove {
            if w.open.len() > 0 {
                listing.removals().push(WalkAction::RemoveDir(dir))
            } else {
                listing.removals()
            }
        } else {
            Seq::empty()
        }),
    decreases listing,
{
    match listing {
        Listing::Unreadable => {
            lemma_run_one(w, WalkEvent::Unreadable);
        },
        Listing::Entries(entries) => {
            let events = entries_events(entries, w.mode);
            let inside = w.next(WalkEvent::Opened);
            lemma_run_one(w, WalkEvent::Opened);
            lemma_entries(inside, entries);
            lemma_run_concat(w, seq![WalkEvent::Opened], events);
            lemma_run_concat(w, seq![WalkEvent::Opened] + events, seq![WalkEvent::End]);
            lemma_run_one(inside.run(events), WalkEvent::End);
            assert(w.open.push(dir).drop_last() =~= w.open);
        },
    }
    assert(w.removals(listing.events(w.mode)) =~= (if w.mode is Remove {
        if w.open.len() > 0 {
            listing.removals().push(WalkAction::RemoveDir(dir))
        } else {
            listing.removals()
        }
    } else {
        Seq::empty()
    }));
}

/// A finished walk has counted every byte below the directory: a measuring walk follows links, a
/// removing walk counts what it may delete.
pub proof fn walk_counts_every_byte(mode: WalkMode, root: usize, listing: Listing)
    ensures
        WalkView::start(mode, root).run(listing.events(mode)).action is Done,
        WalkView::start(mode, root).run(listing.events(mode)).total == listing.size(mode),
{
    lemma_listing(WalkView::start(mode, root), root, listing);
}

proof fn lemma_entries_sizes(entries: Seq<Node>)
    ensures
        entries_size(entries, WalkMode::Remove) <= entries_size(entries, WalkMode::Measure),
        entries_link_free(entries) ==> entries_size(entries, WalkMode::Remove) == entries_size(
            entries,
            WalkMode::Measure,
        ),
    decreases entries,
{
    if entries.len() > 0 {
        let first = entries[0];
        assert(first.size(WalkMode::Remove) <= first.size(WalkMode::Measure) && (first.link_free()
            ==> first.size(WalkMode::Remove) == first.size(WalkMode::Measure))) by {
            if let Node::Dir { id, listing } = first {
                lemma_listing_sizes(listing);
            }
        }
        lemma_entries_sizes(entries.drop_first());
    }
}

proof fn lemma_listing_sizes(listing: Listing)
    ensures
        listing.size(WalkMode::Remove) <= listing.size(WalkMode::Measure),
        listing.link_free() ==> listing.size(WalkMode::Remove) == listing.size(WalkMode::Measure),
    decreases listing,
{
    if let Listing::Entries(entries) = listing {
        lemma_entries_sizes(entries);
    }
}

/// A removing walk never counts more bytes than a measuring walk of the same directory, and the
/// two count the same where there are no links.
pub proof fn walks_agree_without_links(root: usize, listing: Listing)
    ensures
        ({
            let removed = WalkView::start(WalkMode::Remove, root).run(
                listing.events(WalkMode::Remove),
            ).total;
            let measured = WalkView::start(WalkMode::Measure, root).run(
                listing.events(WalkMode::Measure),
            ).total;
            &&& removed <= measured
            &&& listing.link_free() ==> removed == measured
        }),
{
    walk_counts_every_byte(WalkMode::Remove, root, listing);
    walk_counts_every_byte(WalkMode::Measure, root, listing);
    lemma_listing_sizes(listing);
}

/// A removing walk asks for the deletion of every file and every subdirectory, once each, a
/// subdirectory after all that it holds. Of a link to a directory it deletes the link at most.
pub proof fn removing_walk_empties_the_directory(root: usize, listing: Listing)
    ensures
        WalkView::start(WalkMode::Remove, root).removals(listing.events(WalkMode::Remove))
            == listing.removals(),
{
    lemma_listing(WalkView::start(WalkMode::Remove, root), root, listing);
}

/// A measuring walk deletes nothing.
pub proof fn measuring_walk_deletes_nothing(root: usize, listing: Listing)
    ensures
        WalkView::start(WalkMode::Measure, root).removals(listing.events(WalkMode::Measure))
            == Seq::<WalkAction>::empty(),
{
    lemma_listing(WalkView::start(WalkMode::Measure, root), root, listing);
}

proof fn lemma_entries_hold_removals(entries: Seq<Node>, target: WalkAction)
    ensures
        entries_removals(entries).contains(target) <==> entries_hold(entries, target),
    decreases entries,
{
    if entries.len() > 0 {
        let here = entries[0].removals();
        let rest = entries_removals(entries.drop_first());
        lemma_entries_hold_removals(entries.drop_first(), target);
        assert(here.contains(target) <==> entries[0].holds(target)) by {
            match entries[0] {
                Node::File { id, len } => {
                    assert(here[0] == WalkAction::RemoveFile(id));
                },
                Node::Dir { id, listing } => {
                    lemma_listing_holds_removals(listing, target);
                    let inner = listing.removals();
                    if inner.contains(target) {
                        let i = choose|i: int| 0 <= i < inner.len() && inner[i] == target;
                        assert(here[i] == target);
                    }
                    if target == WalkAction::RemoveDir(id) {
                        assert(here[inner.len() as int] == target);
                    }
                    if here.contains(target) {
                        let i = choose|i: int| 0 <= i < here.len() && here[i] == target;
                        if i < inner.len() {
                            assert(inner[i] == target);
                        }
                    }
                },
                Node::Link { id, listing } => {
                    assert(here[0] == WalkAction::RemoveDir(id));
                },
                Node::Other => {},
            }
        }
        let all = here + rest;
        if here.contains(target) {
            let i = choose|i: int| 0 <= i < here.len() && here[i] == target;
            assert(all[i] == target);
        }
        if rest.contains(target) {
            let i = choose|i: int| 0 <= i < rest.len() && rest[i] == target;
            assert(all[here.len() + i] == target);
        }
        if all.contains(target) {
            let i = choose|i: int| 0 <= i < all.len() && all[i] == target;
            if i < here.len() {
                assert(here[i] == target);
            } else {
                assert(rest[i - here.len()] == target);
            }
        }
    }
}

proof fn lemma_listing_holds_removals(listing: Listing, target: WalkAction)
    ensures
        listing.removals().contains(target) <==> listing.holds(target),
    decreases listing,
{
    if let Listing::Entries(entries) = listing {
        lemma_entries_hold_removals(entries, target);
    }
}

/// A removing walk stays inside its root: it deletes exactly the entries that it meets below the
/// root without passing a link.
pub proof fn removing_walk_stays_inside(root: usize, listing: Listing, removal: WalkAction)
    ensures
        WalkView::start(WalkMode::Remove, root).removals(
            listing.events(WalkMode::Remove),
        ).contains(removal) <==> listing.holds(removal),
{
    removing_walk_empties_the_directory(root, listing);
    lemma_listing_holds_removals(listing, removal);
}

/// Whatever a removing walk is told, it lists only directories: an entry that is opened was met as
/// a directory, and a link is never opened.
pub proof fn removing_walk_opens_no_link(walk: WalkView, event: WalkEvent, dir: usize)
    requires
        walk.mode is Remove,
        walk.accepts(event),
    ensures
        walk.next(event).action == WalkAction::Open(dir) <==> event == (WalkEvent::Dir { id: dir }),
        walk.next(event).mode is Remove,
{
}

/// Whatever a removing walk is told, it deletes only what it has met: a file when it is met, a link
/// when it is met, and a directory whose listing has ended or could not be started. The outermost
/// directory is the root, and it stays.
pub proof fn removing_walk_deletes_what_it_met(walk: WalkView, event: WalkEvent, removal: WalkAction)
    requires
        walk.mode is Remove,
        walk.wf(),
        walk.accepts(event),
        walk.next(event).action == removal,
        removal is RemoveFile || removal is RemoveDir,
    ensures
        match event {
            WalkEvent::File { id, len: _ } => removal == WalkAction::RemoveFile(id),
            WalkEvent::Link { id } => removal == WalkAction::RemoveDir(id),
            WalkEvent::End => removal == WalkAction::RemoveDir(walk.open.last())
                && walk.open.len() > 1,
            WalkEvent::Unreadable => walk.action == WalkAction::Open(removal->RemoveDir_0)
                && walk.open.len() > 0,
            _ => false,
        },
{
}

/// Every event that a walk sees of a directory answers the action it follows.
pub proof fn walk_accepts_what_it_finds(mode: WalkMode, root: usize, listing: Listing, i: int)
    requires
        0 <= i < listing.events(mode).len(),
    ensures
        WalkView::start(mode, root).run(listing.events(mode).take(i)).accepts(
            listing.events(mode)[i],
        ),
{
    lemma_listing_accepted(WalkView::start(mode, root), root, listing, i);
}

proof fn lemma_node_accepted(w: WalkView, node: Node, i: int)
    requires
        w.wf(),
        w.action is Next,
        0 <= i < node.events(w.mode).len(),
    ensures
        w.run(node.events(w.mode).take(i)).accepts(node.events(w.mode)[i]),
    decreases node,
{
    let events = node.events(w.mode);
    if i == 0 {
        assert(events.take(0) =~= Seq::<WalkEvent>::empty());
    } else {
        let first = events[0];
        lemma_run_one(w, first);
        if let Node::Dir { id, listing } = node {
            let inner = listing.events(w.mode);
            if i <= inner.len() {
                assert(events.take(i) =~= seq![first] + inner.take(i - 1));
                lemma_run_concat(w, seq![first], inner.take(i - 1));
                lemma_listing_accepted(w.next(first), id, listing, i - 1);
            } else {
                assert(events.take(i) =~= seq![first] + inner);
                lemma_run_concat(w, seq![first], inner);
                lemma_listing(w.next(first), id, listing);
            }
        } else if let Node::Link { id, listing } = node {
            if w.mode is Remove {
                assert(events.take(i) =~= seq![first]);
            } else {
                let inner = listing.events(w.mode);
                assert(events.take(i) =~= seq![first] + inner.take(i - 1));
                lemma_run_concat(w, seq![first], inner.take(i - 1));
                lemma_listing_accepted(w.next(first), id, listing, i - 1);
            }
        } else {
            assert(events.take(i) =~= seq![first]);
        }
    }
}

proof fn lemma_entries_accepted(w: WalkView, entries: Seq<Node>, i: int)
    requires
        w.wf(),
        w.action is Next,
        0 <= i < entries_events(entries, w.mode).len(),
    ensures
        w.run(entries_events(entries, w.mode).take(i)).accepts(
            entries_events(entries, w.mode)[i],
        ),
    decreases entries,
{
    if entries.len() > 0 {
        let here = entries[0].events(w.mode);
        let rest = entries_events(entries.drop_first(), w.mode);
        if i < here.len() {
            assert((here + rest).take(i) =~= here.take(i));
            lemma_node_accepted(w, entries[0], i);
        } else {
            assert((here + rest).take(i) =~= here + rest.take(i - here.len()));
            lemma_run_concat(w, here, rest.take(i - here.len()));
            lemma_node(w, entries[0]);
            lemma_entries_accepted(w.run(here), entries.drop_first(), i - here.len());
        }
    }
}

proof fn lemma_listing_accepted(w: WalkView, dir: usize, listing: Listing, i: int)
    requires
        w.wf(),
        w.action == WalkAction::Open(dir),
        0 <= i < listing.events(w.mode).len(),
    ensures
        w.run(listing.events(w.mode).take(i)).accepts(listing.events(w.mode)[i]),
    decreases listing,
{
    let events = listing.events(w.mode);
    if i == 0 {
        assert(events.take(0) =~= Seq::<WalkEvent>::empty());
    } else if let Listing::Entries(entries) = listing {
        let first = WalkEvent::Opened;
        let inner = entries_events(entries, w.mode);
        lemma_run_one(w, first);
        if i <= inner.len() {
            assert(events.take(i) =~= seq![first] + inner.take(i - 1));
            lemma_run_concat(w, seq![first], inner.take(i - 1));
            lemma_entries_accepted(w.next(first), entries, i - 1);
        } else {
            assert(events.take(i) =~= seq![first] + inner);
            lemma_run_concat(w, seq![first], inner);
            lemma_entries(w.next(first), entries);
        }
    }
}

/// A file adds its length to the count, however large, if the file system tells the length, and
/// nothing else changes the count.
pub proof fn only_files_count(walk: WalkView, event: WalkEvent)
    requires
        walk.accepts(event),
    ensures
        walk.next(event).total == match event {
            WalkEvent::File { id: _, len: Some(n) } => walk.total + n,
            _ => walk.total as int,
        },
        walk.next(event).mode == walk.mode,
{
}

/// At any depth, a directory that is met is listed next, and its listing goes on from its first
/// entry; a link is listed by a measuring walk only.
pub proof fn directories_are_listed_when_met(walk: WalkView, dir: usize)
    ensures
        walk.action is Next ==> walk.next(WalkEvent::Dir { id: dir }) == (WalkView {
            action: WalkAction::Open(dir),
            ..walk
        }),
        walk.action is Next && walk.mode is Measure ==> walk.next(WalkEvent::Link { id: dir }) == (
        WalkView { action: WalkAction::Open(dir), ..walk }),
        walk.action is Next && walk.mode is Remove ==> walk.next(WalkEvent::Link { id: dir }) == (
        WalkView { action: WalkAction::RemoveDir(dir), ..walk }),
        walk.action == WalkAction::Open(dir) ==> walk.next(WalkEvent::Opened) == (WalkView {
            action: WalkAction::Next(dir),
            open: walk.open.push(dir),
            ..walk
        }),
{
}

/// At any depth, a file is deleted when it is met by a removing walk, and a measuring walk goes on
/// with the same listing; so does every walk after an entry that is neither file nor directory.
pub proof fn files_are_dealt_with_when_met(walk: WalkView, dir: usize, id: usize, len: Option<u64>)
    requires
        walk.action == WalkAction::Next(dir),
    ensures
        walk.mode is Remove ==> walk.next(WalkEvent::File { id, len }).action
            == WalkAction::RemoveFile(id),
        walk.mode is Measure ==> walk.next(WalkEvent::File { id, len }).action == WalkAction::Next(
            dir,
        ),
        walk.next(WalkEvent::File { id, len }).open == walk.open,
        walk.next(WalkEvent::Other) == walk,
{
}

/// A listing that ended or could not be started leads back to the listing it was met in, in a
/// removing walk after the deletion of the directory; where there is none, the walk is over. A
/// deletion leads back to the listing under way, whatever its success.
pub proof fn walks_go_back_to_where_they_came_from(walk: WalkView, dir: usize)
    requires
        walk.wf(),
    ensures
        walk.action == WalkAction::Next(dir) && walk.open.len() == 1 ==> walk.next(WalkEvent::End) == (
        WalkView { action: WalkAction::Done, open: Seq::empty(), ..walk }),
        walk.action == WalkAction::Next(dir) && walk.open.len() > 1 ==> walk.next(WalkEvent::End) == (
        WalkView {
            action: if walk.mode is Remove {
                WalkAction::RemoveDir(dir)
            } else {
                WalkAction::Next(walk.open[walk.open.len() - 2])
            },
            open: walk.open.drop_last(),
            ..walk
        }),
        walk.action == WalkAction::Open(dir) && walk.open.len() == 0 ==> walk.next(
            WalkEvent::Unreadable,
        ) == (WalkView { action: WalkAction::Done, ..walk }),
        walk.action == WalkAction::Open(dir) && walk.open.len() > 0 ==> walk.next(
            WalkEvent::Unreadable,
        ) == (WalkView {
            action: if walk.mode is Remove {
                WalkAction::RemoveDir(dir)
            } else {
                WalkAction::Next(walk.open.last())
            },
            ..walk
        }),
        walk.action is RemoveFile || walk.action is RemoveDir ==> walk.next(WalkEvent::Removed) == (
        WalkView { action: WalkAction::Next(walk.open.last()), ..walk }),
{
    if walk.action == WalkAction::Next(dir) && walk.open.len() == 1 {
        assert(walk.open.drop_last() =~= Seq::<usize>::empty());
    }
}

/// Every outcome of an action is accepted, whatever it holds, and nothing else; a walk that is over
/// accepts nothing.
pub proof fn walks_accept_every_outcome(walk: WalkView, event: WalkEvent)
    ensures
        walk.accepts(event) <==> match event {
            WalkEvent::Opened | WalkEvent::Unreadable => walk.action is Open,
            WalkEvent::File { .. } | WalkEvent::Dir { .. } | WalkEvent::Link { .. }
            | WalkEvent::Other | WalkEvent::End => walk.action is Next,
            WalkEvent::Removed => walk.action is RemoveFile || walk.action is RemoveDir,
        },
{
}

/// Sizes and deletions of two runs of entries put together are those of the first and those of the
/// second; a file counts for its length, a directory for what it holds.
pub proof fn entries_add_up(first: Seq<Node>, second: Seq<Node>, mode: WalkMode)
    ensures
        entries_size(first + second, mode) == entries_size(first, mode) + entries_size(
            second,
            mode,
        ),
        entries_removals(first + second) == entries_removals(first) + entries_removals(second),
        entries_events(first + second, mode) == entries_events(first, mode) + entries_events(
            second,
            mode,
        ),
    decreases first.len(),
{
    if first.len() == 0 {
        assert(first + second =~= second);
        assert(entries_removals(first) + entries_removals(second) =~= entries_removals(second));
        assert(entries_events(first, mode) + entries_events(second, mode) =~= entries_events(
            second,
            mode,
        ));
    } else {
        assert((first + second).drop_first() =~= first.drop_first() + second);
        entries_add_up(first.drop_first(), second, mode);
        assert(entries_removals(first + second) =~= entries_removals(first) + entries_removals(
            second,
        ));
        assert(entries_events(first + second, mode) =~= entries_events(first, mode)
            + entries_events(second, mode));
    }
}

/// What single entries count for, and what their deletion takes.
pub proof fn single_entries(id: usize, n: u64, listing: Listing, mode: WalkMode)
    ensures
        (Node::File { id, len: Some(n) }).size(mode) == n,
        (Node::File { id, len: None }).size(mode) == 0,
        (Node::Dir { id, listing }).size(mode) == listing.size(mode),
        Node::Other.size(mode) == 0,
        (Node::File { id, len: Some(n) }).removals() == seq![WalkAction::RemoveFile(id)],
        (Node::Dir { id, listing }).removals() == listing.removals().push(
            WalkAction::RemoveDir(id),
        ),
        Node::Other.removals() == Seq::<WalkAction>::empty(),
        Listing::Unreadable.size(mode) == 0,
{
}

/// A walk starts with the listing of its root, whichever it is, and with nothing counted.
pub proof fn walks_start_at_their_root(mode: WalkMode, root: usize)
    ensures
        WalkView::start(mode, root).mode == mode,
        WalkView::start(mode, root).action == WalkAction::Open(root),
        WalkView::start(mode, root).open.len() == 0,
        WalkView::start(mode, root).total == 0,
{
}

} // verus!
