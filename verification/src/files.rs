//! A snapshot of the part of the file system that a template reaches:
//! which paths are files, directories or missing, and what each path
//! canonicalises to. The engine reads nothing else of the outside world.

use crate::table::Table;
use vstd::prelude::*;
use vstd::string::*;

verus! {

/// One entry of a directory.
pub struct Entry {
    pub name: String,
    pub is_dir: bool,
    pub is_file: bool,
}

pub struct EntryView {
    pub name: Seq<char>,
    pub is_dir: bool,
    pub is_file: bool,
}

impl View for Entry {
    type V = EntryView;

    open spec fn view(&self) -> EntryView {
        EntryView { name: self.name@, is_dir: self.is_dir, is_file: self.is_file }
    }
}

/// What stands at a path.
pub enum Node {
    Missing,
    File(Vec<u8>),
    Directory(Vec<Entry>),
}

pub enum NodeView {
    Missing,
    File(Seq<u8>),
    Directory(Seq<EntryView>),
}

pub open spec fn entries_view(entries: Seq<Entry>) -> Seq<EntryView> {
    entries.map_values(|e: Entry| e@)
}

impl View for Node {
    type V = NodeView;

    open spec fn view(&self) -> NodeView {
        match self {
            Node::Missing => NodeView::Missing,
            Node::File(bytes) => NodeView::File(bytes@),
            Node::Directory(entries) => NodeView::Directory(entries_view(entries@)),
        }
    }
}

pub struct Files {
    nodes: Table<Node>,
    canonical: Table<Option<String>>,
}

pub struct FilesView {
    pub nodes: Map<Seq<char>, NodeView>,
    pub canonical: Map<Seq<char>, Option<Seq<char>>>,
}

/// What a snapshot says of a path: nothing, or the answer.
pub enum Known<T> {
    Unknown,
    Known(T),
}

pub open spec fn target_view(target: Option<String>) -> Option<Seq<char>> {
    match target {
        Some(t) => Some(t@),
        None => None,
    }
}

impl FilesView {
    /// What stands at a path. The empty path names nothing in any snapshot.
    pub open spec fn node(self, path: Seq<char>) -> Known<NodeView> {
        if path.len() == 0 {
            Known::Known(NodeView::Missing)
        } else if self.nodes.contains_key(path) {
            Known::Known(self.nodes[path])
        } else {
            Known::Unknown
        }
    }

    /// Whether a path is a directory.
    pub open spec fn is_directory(self, path: Seq<char>) -> Known<bool> {
        match self.node(path) {
            Known::Unknown => Known::Unknown,
            Known::Known(n) => Known::Known(n is Directory),
        }
    }

    /// The canonical form of a path; `None` inside where it has none.
    pub open spec fn canonical_of(self, path: Seq<char>) -> Known<Option<Seq<char>>> {
        if self.canonical.contains_key(path) {
            Known::Known(self.canonical[path])
        } else {
            Known::Unknown
        }
    }
}

impl Files {
    pub closed spec fn wf(&self) -> bool {
        self.nodes.wf() && self.canonical.wf()
    }

    pub closed spec fn view(&self) -> FilesView {
        FilesView {
            nodes: self.nodes@.map_values(|n: Node| n@),
            canonical: self.canonical@.map_values(|t: Option<String>| target_view(t)),
        }
    }

    /// A snapshot that knows nothing.
    pub fn new() -> (r: Self)
        ensures
            r.wf(),
            r@.nodes == Map::<Seq<char>, NodeView>::empty(),
            r@.canonical == Map::<Seq<char>, Option<Seq<char>>>::empty(),
    {
        let r = Files { nodes: Table::new(), canonical: Table::new() };
        assert(r@.nodes =~= Map::<Seq<char>, NodeView>::empty());
        assert(r@.canonical =~= Map::<Seq<char>, Option<Seq<char>>>::empty());
        r
    }

    /// Records what stands at `path`.
    pub fn add_node(&mut self, path: &str, node: Node)
        requires
            old(self).wf(),
        ensures
            final(self).wf(),
            final(self)@.nodes == old(self)@.nodes.insert(path@, node@),
            final(self)@.canonical == old(self)@.canonical,
    {
        self.nodes.insert(path, node);
        assert(self@.nodes =~= old(self)@.nodes.insert(path@, node@));
    }

    /// Records that `path` is a file with the given content.
    pub fn add_file(&mut self, path: &str, content: Vec<u8>)
        requires
            old(self).wf(),
        ensures
            final(self).wf(),
            final(self)@.nodes == old(self)@.nodes.insert(path@, NodeView::File(content@)),
            final(self)@.canonical == old(self)@.canonical,
    {
        self.add_node(path, Node::File(content));
    }

    /// Records that `path` is a file that holds the given text.
    pub fn add_text(&mut self, path: &str, content: &str)
        requires
            old(self).wf(),
        ensures
            final(self).wf(),
            final(self)@.nodes == old(self)@.nodes.insert(
                path@,
                NodeView::File(vstd::utf8::encode_utf8(content@)),
            ),
            final(self)@.canonical == old(self)@.canonical,
    {
        let bytes = vstd::string::StrSliceExecFns::as_bytes_vec(content);
        self.add_node(path, Node::File(bytes));
    }

    /// Records that nothing stands at `path`.
    pub fn add_missing(&mut self, path: &str)
        requires
            old(self).wf(),
        ensures
            final(self).wf(),
            final(self)@.nodes == old(self)@.nodes.insert(path@, NodeView::Missing),
            final(self)@.canonical == old(self)@.canonical,
    {
        self.add_node(path, Node::Missing);
    }

    /// Records that `path` is a directory with the given entries.
    pub fn add_directory(&mut self, path: &str, entries: Vec<Entry>)
        requires
            old(self).wf(),
        ensures
            final(self).wf(),
            final(self)@.nodes == old(self)@.nodes.insert(
                path@,
                NodeView::Directory(entries_view(entries@)),
            ),
            final(self)@.canonical == old(self)@.canonical,
    {
        self.add_node(path, Node::Directory(entries));
    }

    /// Records the canonical form of `path`, or that it has none.
    pub fn add_canonical(&mut self, path: &str, target: Option<String>)
        requires
            old(self).wf(),
        ensures
            final(self).wf(),
            final(self)@.nodes == old(self)@.nodes,
            final(self)@.canonical == old(self)@.canonical.insert(path@, target_view(target)),
    {
        self.canonical.insert(path, target);
        assert(self@.canonical =~= old(self)@.canonical.insert(path@, target_view(target)));
    }

    /// What the snapshot says stands at `path`.
    pub fn node(&self, path: &str) -> (r: Known<&Node>)
        requires
            self.wf(),
        ensures
            match r {
                Known::Unknown => self@.node(path@) is Unknown,
                Known::Known(n) => self@.node(path@) == Known::Known(n@),
            },
    {
        if path.unicode_len() == 0 {
            proof {
                assert(path@.len() == 0);
            }
            Known::Known(&Node::Missing)
        } else {
            match self.nodes.get(path) {
                Some(n) => Known::Known(n),
                None => Known::Unknown,
            }
        }
    }

    /// Whether the snapshot says that `path` is a directory.
    pub fn is_directory(&self, path: &str) -> (r: Known<bool>)
        requires
            self.wf(),
        ensures
            r == self@.is_directory(path@),
    {
        match self.node(path) {
            Known::Unknown => Known::Unknown,
            Known::Known(n) => match n {
                Node::Directory(_) => Known::Known(true),
                _ => Known::Known(false),
            },
        }
    }

    /// What the snapshot says `path` canonicalises to.
    pub fn canonical_of(&self, path: &str) -> (r: Known<Option<&String>>)
        requires
            self.wf(),
        ensures
            match r {
                Known::Unknown => self@.canonical_of(path@) is Unknown,
                Known::Known(Some(t)) => self@.canonical_of(path@) == Known::Known(Some(t@)),
                Known::Known(None) => self@.canonical_of(path@) == Known::Known(
                    None::<Seq<char>>,
                ),
            },
    {
        match self.canonical.get(path) {
            Some(t) => Known::Known(t.as_ref()),
            None => Known::Unknown,
        }
    }
}

} // verus!
