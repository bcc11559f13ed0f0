//! The file tree: changed paths arranged as a sorted, collapsible
//! directory/file tree, and its flattened render-addressable projection.
//!
//! Contracts are stated over `NodeView`, the mathematical model of a
//! tree node, in which strings are character sequences.

use vstd::prelude::*;

use crate::diff::FileDiff;
use crate::diff::FileDiffView;
use crate::diff::FileStatus;
use crate::diff::files_view;
use crate::text::char_lt;
use crate::text::lex_lt;
use crate::text::split_char;
use crate::text::split_seq;
use crate::text::str_eq;
use crate::text::str_lt;

verus! {

/// A node of the file tree.  Exactly one of `path`/`children` is
/// meaningful: a file node carries a path and never gains children, a
/// directory node has no path.
#[derive(Debug)]
pub struct FileTreeNode {
    /// Display name (file or directory name).
    pub name: String,
    /// Full path for files, `None` for directories.
    pub path: Option<String>,
    /// Child nodes, for directories.
    pub children: Vec<FileTreeNode>,
    /// Whether this directory is expanded.
    pub expanded: bool,
    /// File status, for files.
    pub status: Option<FileStatus>,
    /// Number of added lines.
    pub additions: usize,
    /// Number of deleted lines.
    pub deletions: usize,
}

/// One row of the tree's flattened projection.
#[derive(Debug, Clone)]
pub struct FlatFileEntry {
    /// Nesting depth, 0 for top-level entries.
    pub depth: usize,
    /// Display name.
    pub name: String,
    /// Full path for files, `None` for directories.
    pub path: Option<String>,
    /// Whether this row is a directory.
    pub is_dir: bool,
    /// Whether this directory row is expanded.
    pub is_expanded: bool,
    /// File status, for files.
    pub status: Option<FileStatus>,
    /// Number of added lines.
    pub additions: usize,
    /// Number of deleted lines.
    pub deletions: usize,
}

/// The mathematical model of a tree node.
#[verifier::ext_equal]
pub ghost struct NodeView {
    pub name: Seq<char>,
    pub path: Option<Seq<char>>,
    pub children: Seq<NodeView>,
    pub expanded: bool,
    pub status: Option<FileStatus>,
    pub additions: usize,
    pub deletions: usize,
}

/// The mathematical model of a flattened row.
#[verifier::ext_equal]
pub ghost struct EntryView {
    pub depth: usize,
    pub name: Seq<char>,
    pub path: Option<Seq<char>>,
    pub is_dir: bool,
    pub is_expanded: bool,
    pub status: Option<FileStatus>,
    pub additions: usize,
    pub deletions: usize,
}

/// The view of an optional string.
pub open spec fn opt_str_view(p: Option<String>) -> Option<Seq<char>> {
    match p {
        Some(s) => Some(s@),
        None => None,
    }
}

/// The model of one tree node.
pub open spec fn node_view(n: FileTreeNode) -> NodeView
    decreases n,
{
    NodeView {
        name: n.name@,
        path: opt_str_view(n.path),
        children: nodes_view(n.children@),
        expanded: n.expanded,
        status: n.status,
        additions: n.additions,
        deletions: n.deletions,
    }
}

/// The models of a sequence of sibling nodes.
pub open spec fn nodes_view(s: Seq<FileTreeNode>) -> Seq<NodeView>
    decreases s,
{
    if s.len() == 0 {
        Seq::empty()
    } else {
        seq![node_view(s[0])] + nodes_view(s.skip(1))
    }
}

/// `nodes_view` maps the model over the sequence elementwise.
pub proof fn lemma_nodes_view(s: Seq<FileTreeNode>)
    ensures
        nodes_view(s).len() == s.len(),
        forall|i: int| 0 <= i < s.len() ==> nodes_view(s)[i] == node_view(#[trigger] s[i]),
    decreases s,
{
    if s.len() > 0 {
        lemma_nodes_view(s.skip(1));
        assert(forall|i: int| 1 <= i < s.len() ==> s.skip(1)[i - 1] == #[trigger] s[i]);
    }
}

/// The model of a pushed sibling sequence.
pub proof fn lemma_nodes_view_push(s: Seq<FileTreeNode>, x: FileTreeNode)
    ensures
        nodes_view(s.push(x)) == nodes_view(s).push(node_view(x)),
{
    lemma_nodes_view(s.push(x));
    lemma_nodes_view(s);
    assert forall|i: int| 0 <= i < nodes_view(s.push(x)).len() implies nodes_view(s.push(x))[i]
        == nodes_view(s).push(node_view(x))[i] by {
        if i < s.len() {
            assert(s.push(x)[i] == s[i]);
        } else {
            assert(s.push(x)[i] == x);
        }
    }
    assert(nodes_view(s.push(x)) =~= nodes_view(s).push(node_view(x)));
}

/// The model of an updated sibling sequence.
pub proof fn lemma_nodes_view_update(s: Seq<FileTreeNode>, j: int, x: FileTreeNode)
    requires
        0 <= j < s.len(),
    ensures
        nodes_view(s.update(j, x)) == nodes_view(s).update(j, node_view(x)),
{
    lemma_nodes_view(s.update(j, x));
    lemma_nodes_view(s);
    assert forall|i: int| 0 <= i < nodes_view(s.update(j, x)).len() implies nodes_view(
        s.update(j, x),
    )[i] == nodes_view(s).update(j, node_view(x))[i] by {
        if i == j {
            assert(s.update(j, x)[i] == x);
        } else {
            assert(s.update(j, x)[i] == s[i]);
        }
    }
    assert(nodes_view(s.update(j, x)) =~= nodes_view(s).update(j, node_view(x)));
}

/// The model of a sibling sequence with one node inserted.
pub proof fn lemma_nodes_view_insert(s: Seq<FileTreeNode>, j: int, x: FileTreeNode)
    requires
        0 <= j <= s.len(),
    ensures
        nodes_view(s.insert(j, x)) == nodes_view(s).insert(j, node_view(x)),
{
    lemma_nodes_view(s.insert(j, x));
    lemma_nodes_view(s);
    assert forall|i: int| 0 <= i < nodes_view(s.insert(j, x)).len() implies nodes_view(
        s.insert(j, x),
    )[i] == nodes_view(s).insert(j, node_view(x))[i] by {
        if i < j {
            assert(s.insert(j, x)[i] == s[i]);
        } else if i == j {
            assert(s.insert(j, x)[i] == x);
        } else {
            assert(s.insert(j, x)[i] == s[i - 1]);
        }
    }
    assert(nodes_view(s.insert(j, x)) =~= nodes_view(s).insert(j, node_view(x)));
}

/// The model of one flattened row.
pub open spec fn entry_view(e: FlatFileEntry) -> EntryView {
    EntryView {
        depth: e.depth,
        name: e.name@,
        path: opt_str_view(e.path),
        is_dir: e.is_dir,
        is_expanded: e.is_expanded,
        status: e.status,
        additions: e.additions,
        deletions: e.deletions,
    }
}

/// The models of a sequence of flattened rows.
pub open spec fn entries_view(s: Seq<FlatFileEntry>) -> Seq<EntryView> {
    s.map_values(|e: FlatFileEntry| entry_view(e))
}

/// The depth of the children of an entry at depth `d`, saturating so
/// that flattening is total.
pub open spec fn next_depth(d: usize) -> usize {
    if d < usize::MAX {
        (d + 1) as usize
    } else {
        d
    }
}

impl NodeView {
    /// A directory node is one without a path.
    pub open spec fn is_dir(self) -> bool {
        self.path is None
    }

    /// The flattened row describing this node at the given depth.
    pub open spec fn entry_at(self, depth: usize) -> EntryView {
        EntryView {
            depth,
            name: self.name,
            path: self.path,
            is_dir: self.is_dir(),
            is_expanded: self.expanded,
            status: self.status,
            additions: self.additions,
            deletions: self.deletions,
        }
    }

    /// The rows this node contributes to the flattened view: the node
    /// itself (unless it is the unnamed root) followed, when expanded, by
    /// its children's rows.  A collapsed directory's children are omitted
    /// entirely; the unnamed root always shows its children, at depth 0.
    pub open spec fn flatten_at(self, depth: usize) -> Seq<EntryView>
        decreases self,
    {
        let own: Seq<EntryView> = if self.name.len() == 0 {
            Seq::empty()
        } else {
            seq![self.entry_at(depth)]
        };
        let kid_depth: usize = if self.name.len() == 0 {
            0usize
        } else {
            next_depth(depth)
        };
        let kids: Seq<EntryView> = if self.expanded || self.name.len() == 0 {
            Self::flatten_children(self.children, kid_depth)
        } else {
            Seq::empty()
        };
        own + kids
    }

    /// The rows of a sequence of sibling nodes, in order.
    pub open spec fn flatten_children(s: Seq<NodeView>, depth: usize) -> Seq<EntryView>
        decreases s,
    {
        if s.len() == 0 {
            Seq::empty()
        } else {
            s[0].flatten_at(depth) + Self::flatten_children(s.skip(1), depth)
        }
    }
}

/// Row sequences of sibling prefixes grow one sibling at a time.
pub proof fn lemma_flatten_children_snoc(s: Seq<NodeView>, depth: usize, i: int)
    requires
        0 <= i < s.len(),
    ensures
        NodeView::flatten_children(s.take(i + 1), depth) == NodeView::flatten_children(
            s.take(i),
            depth,
        ) + s[i].flatten_at(depth),
    decreases i + 1,
{
    let a = s.take(i + 1);
    if i == 0 {
        assert(a.skip(1) =~= s.take(0));
        assert(NodeView::flatten_children(a, depth) =~= NodeView::flatten_children(s.take(0), depth)
            + s[0].flatten_at(depth));
    } else {
        lemma_flatten_children_snoc(s.skip(1), depth, i - 1);
        assert(a.skip(1) =~= s.skip(1).take(i));
        assert(s.take(i).skip(1) =~= s.skip(1).take(i - 1));
        assert(a[0] == s[0]);
        assert(s.take(i)[0] == s[0]);
        assert(s.skip(1)[i - 1] == s[i]);
        assert(NodeView::flatten_children(s.take(i + 1), depth) =~= NodeView::flatten_children(
            s.take(i),
            depth,
        ) + s[i].flatten_at(depth));
    }
}

impl FileTreeNode {
    /// A new directory node, expanded, with no children yet.
    pub fn directory(name: &str) -> (r: FileTreeNode)
        ensures
            node_view(r) == NodeView::new_dir(name@),
    {
        FileTreeNode {
            name: name.to_owned(),
            path: None,
            children: Vec::new(),
            expanded: true,
            status: None,
            additions: 0,
            deletions: 0,
        }
    }

    /// A new file node carrying the status and counts of its diff.
    pub fn file(name: &str, path: &str, file_diff: &FileDiff) -> (r: FileTreeNode)
        ensures
            node_view(r) == NodeView::new_file(name@, path@, file_diff.to_view()),
    {
        FileTreeNode {
            name: name.to_owned(),
            path: Some(path.to_owned()),
            children: Vec::new(),
            expanded: false,
            status: Some(file_diff.status),
            additions: file_diff.additions,
            deletions: file_diff.deletions,
        }
    }

    /// Whether this node is a directory.
    pub fn is_directory(&self) -> (r: bool)
        ensures
            r == node_view(*self).is_dir(),
    {
        self.path.is_none()
    }

    /// Flips a directory's expand flag and reports success; the refusal
    /// on a file node is a boolean failure, with the node unchanged.
    pub fn toggle(&mut self) -> (r: bool)
        ensures
            node_view(*final(self)) == node_view(*old(self)).toggled(),
            r == node_view(*old(self)).is_dir(),
            !r ==> *final(self) == *old(self),
    {
        if self.path.is_none() {
            self.expanded = !self.expanded;
            true
        } else {
            false
        }
    }

    /// The flattened projection of the tree below this root.  The root
    /// itself is never emitted; its descendants start at depth 0.
    pub fn flatten(&self) -> (r: Vec<FlatFileEntry>)
        ensures
            entries_view(r@) == node_view(*self).flatten_at(0),
    {
        let mut result: Vec<FlatFileEntry> = Vec::new();
        self.flatten_recursive(0, &mut result);
        result
    }

    /// Appends this node's rows at the given depth to `result`.
    #[verifier::loop_isolation(false)]
    fn flatten_recursive(&self, depth: usize, result: &mut Vec<FlatFileEntry>)
        ensures
            entries_view(final(result)@) == entries_view(old(result)@) + node_view(
                *self,
            ).flatten_at(depth),
        decreases *self,
    {
        let is_root = self.name.unicode_len() == 0;
        if !is_root {
            let own_path: Option<String> = match &self.path {
                Some(p) => Some(p.clone()),
                None => None,
            };
            let entry = FlatFileEntry {
                depth,
                name: self.name.clone(),
                path: own_path,
                is_dir: self.path.is_none(),
                is_expanded: self.expanded,
                status: self.status,
                additions: self.additions,
                deletions: self.deletions,
            };
            proof {
                assert(entry_view(entry) =~= node_view(*self).entry_at(depth));
            }
            let ghost before = result@;
            result.push(entry);
            proof {
                assert(entries_view(result@) =~= entries_view(before).push(entry_view(entry)));
            }
        }
        if self.expanded || is_root {
            let child_depth: usize = if is_root {
                0
            } else {
                if depth < usize::MAX {
                    depth + 1
                } else {
                    depth
                }
            };
            let ghost mid = entries_view(result@);
            let ghost kids = nodes_view(self.children@);
            proof {
                lemma_nodes_view(self.children@);
            }
            let mut i: usize = 0;
            while i < self.children.len()
                invariant
                    i <= self.children@.len(),
                    entries_view(result@) == mid + NodeView::flatten_children(
                        kids.take(i as int),
                        child_depth,
                    ),
                decreases self.children@.len() - i,
            {
                proof {
                    lemma_flatten_children_snoc(kids, child_depth, i as int);
                }
                self.children[i].flatten_recursive(child_depth, result);
                i = i + 1;
            }
            proof {
                assert(kids.take(kids.len() as int) =~= kids);
            }
        }
        proof {
            assert(entries_view(result@) =~= entries_view(old(result)@) + node_view(
                *self,
            ).flatten_at(depth));
        }
    }
}

impl NodeView {
    /// The model of a fresh directory node.
    pub open spec fn new_dir(name: Seq<char>) -> NodeView {
        NodeView {
            name,
            path: None,
            children: Seq::empty(),
            expanded: true,
            status: None,
            additions: 0,
            deletions: 0,
        }
    }

    /// The model of a fresh file node for the given diff.
    pub open spec fn new_file(name: Seq<char>, path: Seq<char>, fd: FileDiffView) -> NodeView {
        NodeView {
            name,
            path: Some(path),
            children: Seq::empty(),
            expanded: false,
            status: Some(fd.status),
            additions: fd.additions,
            deletions: fd.deletions,
        }
    }

    /// This node with its expand flag flipped when it is a directory,
    /// unchanged otherwise.
    pub open spec fn toggled(self) -> NodeView {
        if self.is_dir() {
            NodeView { expanded: !self.expanded, ..self }
        } else {
            self
        }
    }
}

/// The index of the first directory child with the given name, or -1.
pub open spec fn first_dir_index(s: Seq<NodeView>, name: Seq<char>) -> int
    decreases s,
{
    if s.len() == 0 {
        -1
    } else if s[0].path is None && s[0].name == name {
        0
    } else {
        let r = first_dir_index(s.skip(1), name);
        if r == -1 {
            -1
        } else {
            r + 1
        }
    }
}

/// `first_dir_index` finds the first matching directory child, if any.
pub proof fn lemma_first_dir_index(s: Seq<NodeView>, name: Seq<char>)
    ensures
        first_dir_index(s, name) == -1 ==> forall|i: int|
            0 <= i < s.len() ==> !(#[trigger] s[i].path is None && s[i].name == name),
        first_dir_index(s, name) != -1 ==> {
            let j = first_dir_index(s, name);
            &&& 0 <= j < s.len()
            &&& s[j].path is None
            &&& s[j].name == name
            &&& forall|i: int| 0 <= i < j ==> !(#[trigger] s[i].path is None && s[i].name == name)
        },
    decreases s,
{
    if s.len() > 0 {
        lemma_first_dir_index(s.skip(1), name);
        assert(forall|i: int| 1 <= i < s.len() ==> s.skip(1)[i - 1] == #[trigger] s[i]);
    }
}

impl NodeView {
    /// The tree after inserting a file whose remaining path segments are
    /// `segs`: directories are descended or created segment by segment,
    /// and the final segment becomes a file node carrying the diff's
    /// status and counts.
    pub open spec fn inserted(self, segs: Seq<Seq<char>>, fd: FileDiffView) -> NodeView
        decreases segs.len(),
    {
        if segs.len() == 0 {
            self
        } else if segs.len() == 1 {
            NodeView {
                children: self.children.push(NodeView::new_file(segs[0], fd.path, fd)),
                ..self
            }
        } else {
            let j = first_dir_index(self.children, segs[0]);
            if j == -1 {
                NodeView {
                    children: self.children.push(
                        NodeView::new_dir(segs[0]).inserted(segs.skip(1), fd),
                    ),
                    ..self
                }
            } else {
                NodeView {
                    children: self.children.update(
                        j,
                        self.children[j].inserted(segs.skip(1), fd),
                    ),
                    ..self
                }
            }
        }
    }
}

/// The views of a sequence of path segments.
pub open spec fn seg_views(parts: Seq<String>) -> Seq<Seq<char>> {
    parts.map_values(|p: String| p@)
}

impl FileTreeNode {
    /// Inserts the file's path segments `parts[k..]` below this node.
    pub fn insert_path(&mut self, parts: &Vec<String>, k: usize, file_diff: &FileDiff)
        requires
            k <= parts@.len(),
        ensures
            node_view(*final(self)) == node_view(*old(self)).inserted(
                seg_views(parts@).skip(k as int),
                file_diff.to_view(),
            ),
        decreases parts@.len() - k,
    {
        let ghost segs = seg_views(parts@).skip(k as int);
        if k >= parts.len() {
            return ;
        }
        proof {
            lemma_nodes_view(self.children@);
        }
        if k == parts.len() - 1 {
            let node = FileTreeNode::file(parts[k].as_str(), self_path_of(file_diff), file_diff);
            let ghost before = self.children@;
            self.children.push(node);
            proof {
                lemma_nodes_view_push(before, node);
                assert(node_view(*self) =~= node_view(*old(self)).inserted(segs, file_diff.to_view()));
            }
        } else {
            let found_at = Self::find_dir_child(&self.children, parts[k].as_str());
            proof {
                lemma_first_dir_index(nodes_view(self.children@), parts@[k as int]@);
                lemma_nodes_view(self.children@);
                match found_at {
                    Some(j) => {
                        let f = first_dir_index(nodes_view(self.children@), parts@[k as int]@);
                        assert(f == j);
                    },
                    None => {
                        assert(first_dir_index(nodes_view(self.children@), parts@[k as int]@)
                            == -1);
                    },
                }
            }
            if let Some(j) = found_at {
                let ghost before = self.children@;
                let mut child = self.children.remove(j);
                child.insert_path(parts, k + 1, file_diff);
                self.children.insert(j, child);
                proof {
                    assert(seg_views(parts@).skip(k as int).skip(1) =~= seg_views(parts@).skip(
                        k + 1,
                    ));
    assert forall|i: int| 0 <= i < self.children@.len() implies self.children@[i]
                        == before.update(j as int, child)[i] by {
                        if i < j {
                            assert(before.remove(j as int)[i] == before[i]);
                        } else if i > j {
                            assert(before.remove(j as int)[i - 1] == before[i]);
                        }
                    }
                    assert(self.children@ =~= before.update(j as int, child));
                    lemma_nodes_view_update(before, j as int, child);
                    assert(node_view(*self) =~= node_view(*old(self)).inserted(segs, file_diff.to_view()));
                }
            } else {
                let mut node = FileTreeNode::directory(parts[k].as_str());
                node.insert_path(parts, k + 1, file_diff);
                let ghost before = self.children@;
                self.children.push(node);
                proof {
                    assert(seg_views(parts@).skip(k as int).skip(1) =~= seg_views(parts@).skip(
                        k + 1,
                    ));
                    lemma_nodes_view_push(before, node);
                    assert(node_view(*self) =~= node_view(*old(self)).inserted(segs, file_diff.to_view()));
                }
            }
        }
    }

    /// The index of the first directory child with the given name.
    fn find_dir_child(children: &Vec<FileTreeNode>, name: &str) -> (r: Option<usize>)
        ensures
            r matches Some(j) ==> j < children@.len() && nodes_view(children@)[j as int].path
                is None && nodes_view(children@)[j as int].name == name@ && (forall|i: int|
                0 <= i < j ==> !(#[trigger] nodes_view(children@)[i].path is None && nodes_view(
                    children@,
                )[i].name == name@)),
            r is None ==> forall|i: int|
                0 <= i < children@.len() ==> !(#[trigger] nodes_view(children@)[i].path is None
                    && nodes_view(children@)[i].name == name@),
    {
        let mut j: usize = 0;
        loop
            invariant
                j <= children@.len(),
                forall|i: int|
                    0 <= i < j ==> !(#[trigger] nodes_view(children@)[i].path is None
                        && nodes_view(children@)[i].name == name@),
            ensures
                j <= children@.len(),
                forall|i: int|
                    0 <= i < j ==> !(#[trigger] nodes_view(children@)[i].path is None
                        && nodes_view(children@)[i].name == name@),
                j < children@.len() ==> nodes_view(children@)[j as int].path is None && nodes_view(
                    children@,
                )[j as int].name == name@,
            decreases children@.len() - j,
        {
            proof {
                lemma_nodes_view(children@);
            }
            if j >= children.len() {
                break ;
            }
            let is_dir = children[j].path.is_none();
            if is_dir && str_eq(children[j].name.as_str(), name) {
                break ;
            }
            j = j + 1;
        }
        if j < children.len() {
            Some(j)
        } else {
            None
        }
    }

    /// Builds the file tree from a flat list of file diffs: every path is
    /// inserted segment by segment, then the whole tree is sorted.
    pub fn from_files(files: &[FileDiff]) -> (r: FileTreeNode)
        ensures
            node_view(r) == NodeView::built_from(files_view(files@)).sorted(),
    {
        let mut root = FileTreeNode::directory("");
        proof {
            reveal_strlit("");
            assert(""@ =~= Seq::<char>::empty());
            assert(files_view(files@).take(0) =~= Seq::<FileDiffView>::empty());
            assert(node_view(root) =~= NodeView::built_from(files_view(files@).take(0)));
        }
        let mut i: usize = 0;
        while i < files.len()
            invariant
                i <= files@.len(),
                node_view(root) == NodeView::built_from(files_view(files@).take(i as int)),
            decreases files@.len() - i,
        {
            let parts = split_char(files[i].path.as_str(), '/');
            proof {
                let fv = files_view(files@);
                assert(fv.take(i + 1).drop_last() =~= fv.take(i as int));
                assert(fv.take(i + 1).last() == fv[i as int]);
                assert(fv[i as int] == files@[i as int].to_view());
                assert(seg_views(parts@).skip(0) =~= seg_views(parts@));
                assert(seg_views(parts@) =~~= parts@.map_values(|t: String| t@));
                assert(seg_views(parts@) == split_seq(fv[i as int].path, '/'));
            }
            root.insert_path(&parts, 0, &files[i]);
            i = i + 1;
        }
        proof {
            assert(files_view(files@).take(files_view(files@).len() as int) =~= files_view(
                files@,
            ));
        }
        root.sort_recursive();
        root
    }
}

/// The full path string of a file diff, borrowed.
fn self_path_of(fd: &FileDiff) -> (r: &str)
    ensures
        r@ == fd.path@,
{
    fd.path.as_str()
}

impl NodeView {
    /// The model of the unnamed, expanded root.
    pub open spec fn empty_root() -> NodeView {
        NodeView::new_dir(Seq::empty())
    }

    /// The unsorted tree resulting from inserting every file in order
    /// into an empty root.
    pub open spec fn built_from(files: Seq<FileDiffView>) -> NodeView
        decreases files.len(),
    {
        if files.len() == 0 {
            NodeView::empty_root()
        } else {
            NodeView::built_from(files.drop_last()).inserted(
                split_seq(files.last().path, '/'),
                files.last(),
            )
        }
    }

    /// Directories before files; within one group, names in lexicographic
    /// order.  This is the strict order the tree is sorted by.
    pub open spec fn node_lt(a: NodeView, b: NodeView) -> bool {
        ||| (a.path is None && b.path is Some)
        ||| ((a.path is None) == (b.path is None) && lex_lt(a.name, b.name))
    }

    /// Insertion of one node into a sorted run: it lands before the first
    /// strictly greater sibling, so equal keys keep their relative order.
    pub open spec fn insert_sorted(s: Seq<NodeView>, x: NodeView) -> Seq<NodeView>
        decreases s.len(),
    {
        if s.len() == 0 {
            seq![x]
        } else if Self::node_lt(x, s[0]) {
            seq![x] + s
        } else {
            seq![s[0]] + Self::insert_sorted(s.skip(1), x)
        }
    }

    /// Stable insertion sort of a sibling sequence.
    pub open spec fn sort_run(s: Seq<NodeView>) -> Seq<NodeView>
        decreases s.len(),
    {
        if s.len() == 0 {
            Seq::empty()
        } else {
            Self::insert_sorted(Self::sort_run(s.drop_last()), s.last())
        }
    }

    /// Every subtree sorted, recursively.
    pub open spec fn sorted(self) -> NodeView
        decreases self,
    {
        NodeView { children: Self::sort_run(Self::sort_each(self.children)), ..self }
    }

    /// Each sibling's subtree sorted, order untouched.
    pub open spec fn sort_each(s: Seq<NodeView>) -> Seq<NodeView>
        decreases s,
    {
        if s.len() == 0 {
            Seq::empty()
        } else {
            seq![s[0].sorted()] + Self::sort_each(s.skip(1))
        }
    }
}

/// `sort_each` of a longer prefix appends the sorted last sibling.
proof fn lemma_sort_each_snoc(s: Seq<NodeView>, i: int)
    requires
        0 <= i < s.len(),
    ensures
        NodeView::sort_each(s.take(i + 1)) == NodeView::sort_each(s.take(i)).push(s[i].sorted()),
    decreases i + 1,
{
    let a = s.take(i + 1);
    if i == 0 {
        assert(a.skip(1) =~= s.take(0));
        assert(NodeView::sort_each(a) =~= NodeView::sort_each(s.take(0)).push(s[0].sorted()));
    } else {
        lemma_sort_each_snoc(s.skip(1), i - 1);
        assert(a.skip(1) =~= s.skip(1).take(i));
        assert(s.take(i).skip(1) =~= s.skip(1).take(i - 1));
        assert(a[0] == s[0]);
        assert(s.take(i)[0] == s[0]);
        assert(s.skip(1)[i - 1] == s[i]);
        assert(NodeView::sort_each(s.take(i + 1)) =~= NodeView::sort_each(s.take(i)).push(
            s[i].sorted(),
        ));
    }
}

/// `insert_sorted` places the node at the first position whose occupant
/// is strictly greater.
proof fn lemma_insert_sorted_at(s: Seq<NodeView>, x: NodeView, idx: int)
    requires
        0 <= idx <= s.len(),
        forall|j: int| 0 <= j < idx ==> !NodeView::node_lt(x, #[trigger] s[j]),
        idx < s.len() ==> NodeView::node_lt(x, s[idx]),
    ensures
        NodeView::insert_sorted(s, x) == s.take(idx) + seq![x] + s.skip(idx),
    decreases idx + 1,
{
    if s.len() == 0 {
        assert(NodeView::insert_sorted(s, x) =~= s.take(0) + seq![x] + s.skip(0));
    } else if idx == 0 {
        assert(NodeView::insert_sorted(s, x) =~= s.take(0) + seq![x] + s.skip(0));
    } else {
        assert(!NodeView::node_lt(x, s[0]));
        assert(forall|j: int| 0 <= j < idx - 1 ==> s.skip(1)[j] == #[trigger] s[j + 1]);
        lemma_insert_sorted_at(s.skip(1), x, idx - 1);
        assert(s.skip(1).take(idx - 1) =~= s.take(idx).skip(1));
        assert(s.skip(1).skip(idx - 1) =~= s.skip(idx));
        assert(NodeView::insert_sorted(s, x) =~= s.take(idx) + seq![x] + s.skip(idx));
    }
}

impl FileTreeNode {
    /// The position where `x` belongs in the sorted run `out`: just
    /// before the first strictly greater sibling.
    fn find_insert_pos(out: &Vec<FileTreeNode>, x: &FileTreeNode) -> (idx: usize)
        ensures
            idx <= out@.len(),
            forall|j: int|
                0 <= j < idx ==> !NodeView::node_lt(node_view(*x), #[trigger] nodes_view(out@)[j]),
            idx < out@.len() ==> NodeView::node_lt(node_view(*x), nodes_view(out@)[idx as int]),
    {
        let mut idx: usize = 0;
        loop
            invariant
                idx <= out@.len(),
                forall|j: int|
                    0 <= j < idx ==> !NodeView::node_lt(
                        node_view(*x),
                        #[trigger] nodes_view(out@)[j],
                    ),
            ensures
                idx <= out@.len(),
                forall|j: int|
                    0 <= j < idx ==> !NodeView::node_lt(
                        node_view(*x),
                        #[trigger] nodes_view(out@)[j],
                    ),
                idx < out@.len() ==> NodeView::node_lt(node_view(*x), nodes_view(out@)[idx as int]),
            decreases out@.len() - idx,
        {
            proof {
                lemma_nodes_view(out@);
            }
            if idx >= out.len() {
                break ;
            }
            if Self::node_before(x, &out[idx]) {
                break ;
            }
            idx = idx + 1;
        }
        idx
    }

    /// Compares two sibling nodes: directories first, then names.
    fn node_before(a: &FileTreeNode, b: &FileTreeNode) -> (r: bool)
        ensures
            r == NodeView::node_lt(node_view(*a), node_view(*b)),
    {
        let a_dir = a.path.is_none();
        let b_dir = b.path.is_none();
        if a_dir && !b_dir {
            true
        } else if a_dir == b_dir {
            str_lt(a.name.as_str(), b.name.as_str())
        } else {
            false
        }
    }

    /// Sorts the whole tree: in every directory, subdirectories come
    /// before files and each group is ordered by name.  Idempotent.
    pub fn sort_recursive(&mut self)
        ensures
            node_view(*final(self)) == node_view(*old(self)).sorted(),
    {
        let mut tmp = FileTreeNode::directory("");
        core::mem::swap(self, &mut tmp);
        let mut done = Self::sort_owned(tmp);
        core::mem::swap(self, &mut done);
    }

    /// Sorts an owned subtree.
    #[verifier::loop_isolation(false)]
    fn sort_owned(n: FileTreeNode) -> (r: FileTreeNode)
        ensures
            node_view(r) == node_view(n).sorted(),
        decreases n,
    {
        let ghost n0 = n;
        let FileTreeNode { name, path, children, expanded, status, additions, deletions } = n;
        let ghost kids0 = nodes_view(children@);
        proof {
            lemma_nodes_view(children@);
        }
        let mut rest = children;
        let mut done: Vec<FileTreeNode> = Vec::new();
        let ghost total = rest@.len() as int;
        while rest.len() > 0
            invariant
                done@.len() + rest@.len() == total,
                nodes_view(done@) == NodeView::sort_each(kids0.take(done@.len() as int)),
                forall|i: int|
                    0 <= i < rest@.len() ==> #[trigger] rest@[i] == n0.children@[done@.len() + i],
            decreases rest@.len(),
        {
            let ghost d = done@.len() as int;
            let c = rest.remove(0);
            proof {
                assert(c == n0.children@[d]);
                assert(decreases_to!(n0 => n0.children@[d]));
            }
            let c2 = Self::sort_owned(c);
            let ghost done_before = done@;
            done.push(c2);
            proof {
                lemma_sort_each_snoc(kids0, d);
                lemma_nodes_view_push(done_before, c2);
                assert(kids0[d] == node_view(n0.children@[d]));
                assert(nodes_view(done@) =~= NodeView::sort_each(kids0.take(done@.len() as int)));
                assert(forall|i: int|
                    0 <= i < rest@.len() ==> #[trigger] rest@[i] == n0.children@[done@.len() + i]);
            }
        }
        proof {
            assert(kids0.take(kids0.len() as int) =~= kids0);
            lemma_nodes_view(done@);
        }
        let mut out: Vec<FileTreeNode> = Vec::new();
        let ghost sorted_kids = nodes_view(done@);
        let mut rest2 = done;
        let ghost total2 = rest2@.len() as int;
        proof {
            assert(sorted_kids.skip(0) =~= sorted_kids);
            assert(sorted_kids.take(0) =~= Seq::<NodeView>::empty());
            assert(nodes_view(out@) =~= NodeView::sort_run(sorted_kids.take(0)));
        }
        while rest2.len() > 0
            invariant
                rest2@.len() <= total2,
                nodes_view(out@) == NodeView::sort_run(
                    sorted_kids.take(total2 - rest2@.len() as int),
                ),
                nodes_view(rest2@) == sorted_kids.skip(total2 - rest2@.len() as int),
            decreases rest2@.len(),
        {
            let ghost i = total2 - rest2@.len() as int;
            proof {
                lemma_nodes_view(rest2@);
            }
            let ghost rest2_before = rest2@;
            let x = rest2.remove(0);
            proof {
                assert(node_view(x) == sorted_kids[i]);
                lemma_nodes_view(rest2_before.skip(1));
                lemma_nodes_view(rest2_before);
                assert(rest2@ =~= rest2_before.skip(1));
                assert(nodes_view(rest2_before.skip(1)) =~= nodes_view(rest2_before).skip(1));
                assert(nodes_view(rest2@) =~= sorted_kids.skip(i + 1));
            }
            let idx: usize = Self::find_insert_pos(&out, &x);
            proof {
                lemma_nodes_view(out@);
            }
            let ghost out_before = out@;
            out.insert(idx, x);
            proof {
                assert(sorted_kids.take(i + 1).drop_last() =~= sorted_kids.take(i));
                assert(sorted_kids.take(i + 1).last() == sorted_kids[i]);
                lemma_insert_sorted_at(nodes_view(out_before), node_view(x), idx as int);
                lemma_nodes_view_insert(out_before, idx as int, x);
                assert(out@ =~= out_before.insert(idx as int, x));
                assert(nodes_view(out_before).insert(idx as int, node_view(x)) =~= nodes_view(
                    out_before,
                ).take(idx as int) + seq![node_view(x)] + nodes_view(out_before).skip(idx as int));
                assert(nodes_view(out@) =~= NodeView::sort_run(sorted_kids.take(i + 1)));
            }
        }
        proof {
            assert(sorted_kids.take(total2) =~= sorted_kids);
        }
        let r = FileTreeNode { name, path, children: out, expanded, status, additions, deletions };
        proof {
            assert(node_view(r) =~= node_view(n0).sorted());
        }
        r
    }

}

impl NodeView {
    /// Total added lines of the files below (and including) this node.
    pub open spec fn sum_adds(self) -> nat
        decreases self,
    {
        if self.path is Some {
            self.additions as nat
        } else {
            Self::sum_adds_children(self.children)
        }
    }

    pub open spec fn sum_adds_children(s: Seq<NodeView>) -> nat
        decreases s,
    {
        if s.len() == 0 {
            0
        } else {
            s[0].sum_adds() + Self::sum_adds_children(s.skip(1))
        }
    }

    /// Total deleted lines of the files below (and including) this node.
    pub open spec fn sum_dels(self) -> nat
        decreases self,
    {
        if self.path is Some {
            self.deletions as nat
        } else {
            Self::sum_dels_children(self.children)
        }
    }

    pub open spec fn sum_dels_children(s: Seq<NodeView>) -> nat
        decreases s,
    {
        if s.len() == 0 {
            0
        } else {
            s[0].sum_dels() + Self::sum_dels_children(s.skip(1))
        }
    }

    /// The tree with every directory's counts replaced by the sums over
    /// its descendant files, saturating at `usize::MAX`.
    pub open spec fn recalculated(self) -> NodeView
        decreases self,
    {
        if self.path is Some {
            self
        } else {
            NodeView {
                additions: crate::diff::clamp_usize(self.sum_adds()),
                deletions: crate::diff::clamp_usize(self.sum_dels()),
                children: Self::recalc_children(self.children),
                ..self
            }
        }
    }

    pub open spec fn recalc_children(s: Seq<NodeView>) -> Seq<NodeView>
        decreases s,
    {
        if s.len() == 0 {
            Seq::empty()
        } else {
            seq![s[0].recalculated()] + Self::recalc_children(s.skip(1))
        }
    }
}

proof fn lemma_recalc_children_snoc(s: Seq<NodeView>, i: int)
    requires
        0 <= i < s.len(),
    ensures
        NodeView::recalc_children(s.take(i + 1)) == NodeView::recalc_children(s.take(i)).push(
            s[i].recalculated(),
        ),
        NodeView::sum_adds_children(s.take(i + 1)) == NodeView::sum_adds_children(s.take(i))
            + s[i].sum_adds(),
        NodeView::sum_dels_children(s.take(i + 1)) == NodeView::sum_dels_children(s.take(i))
            + s[i].sum_dels(),
    decreases i + 1,
{
    let a = s.take(i + 1);
    if i == 0 {
        assert(a.skip(1) =~= s.take(0));
        assert(NodeView::recalc_children(a) =~= NodeView::recalc_children(s.take(0)).push(
            s[0].recalculated(),
        ));
    } else {
        lemma_recalc_children_snoc(s.skip(1), i - 1);
        assert(a.skip(1) =~= s.skip(1).take(i));
        assert(s.take(i).skip(1) =~= s.skip(1).take(i - 1));
        assert(a[0] == s[0]);
        assert(s.take(i)[0] == s[0]);
        assert(s.skip(1)[i - 1] == s[i]);
        assert(NodeView::recalc_children(s.take(i + 1)) =~= NodeView::recalc_children(
            s.take(i),
        ).push(s[i].recalculated()));
    }
}

impl FileTreeNode {
    /// Recomputes aggregate counts bottom-up: a directory's counts become
    /// the sums over its descendant files, saturating at `usize::MAX`;
    /// a file's counts are its own.  Returns this node's counts.
    pub fn calculate_stats(&mut self) -> (r: (usize, usize))
        ensures
            node_view(*final(self)) == node_view(*old(self)).recalculated(),
            r.0 == crate::diff::clamp_usize(node_view(*old(self)).sum_adds()),
            r.1 == crate::diff::clamp_usize(node_view(*old(self)).sum_dels()),
    {
        let mut tmp = FileTreeNode::directory("");
        core::mem::swap(self, &mut tmp);
        let (done, a, d) = Self::recalc_owned(tmp);
        let mut done = done;
        core::mem::swap(self, &mut done);
        (a, d)
    }

    /// Recomputes aggregate counts of an owned subtree.
    #[verifier::loop_isolation(false)]
    fn recalc_owned(n: FileTreeNode) -> (r: (FileTreeNode, usize, usize))
        ensures
            node_view(r.0) == node_view(n).recalculated(),
            r.1 == crate::diff::clamp_usize(node_view(n).sum_adds()),
            r.2 == crate::diff::clamp_usize(node_view(n).sum_dels()),
        decreases n,
    {
        let ghost n0 = n;
        if n.path.is_some() {
            let a = n.additions;
            let d = n.deletions;
            return (n, a, d);
        }
        let FileTreeNode { name, path, children, expanded, status, additions: _, deletions: _ } =
            n;
        let ghost kids0 = nodes_view(children@);
        proof {
            lemma_nodes_view(children@);
        }
        let mut rest = children;
        let mut done: Vec<FileTreeNode> = Vec::new();
        let mut adds: usize = 0;
        let mut dels: usize = 0;
        let ghost total = rest@.len() as int;
        while rest.len() > 0
            invariant
                done@.len() + rest@.len() == total,
                nodes_view(done@) == NodeView::recalc_children(kids0.take(done@.len() as int)),
                adds == crate::diff::clamp_usize(
                    NodeView::sum_adds_children(kids0.take(done@.len() as int)),
                ),
                dels == crate::diff::clamp_usize(
                    NodeView::sum_dels_children(kids0.take(done@.len() as int)),
                ),
                forall|i: int|
                    0 <= i < rest@.len() ==> #[trigger] rest@[i] == n0.children@[done@.len() + i],
            decreases rest@.len(),
        {
            let ghost d_idx = done@.len() as int;
            let c = rest.remove(0);
            proof {
                assert(c == n0.children@[d_idx]);
                assert(decreases_to!(n0 => n0.children@[d_idx]));
                assert(kids0[d_idx] == node_view(n0.children@[d_idx]));
            }
            let (c2, ca, cd) = Self::recalc_owned(c);
            let ghost done_before = done@;
            done.push(c2);
            proof {
                lemma_recalc_children_snoc(kids0, d_idx);
                lemma_nodes_view_push(done_before, c2);
            }
            if ca > usize::MAX - adds {
                adds = usize::MAX;
            } else {
                adds = adds + ca;
            }
            if cd > usize::MAX - dels {
                dels = usize::MAX;
            } else {
                dels = dels + cd;
            }
            proof {
                assert(forall|i: int|
                    0 <= i < rest@.len() ==> #[trigger] rest@[i] == n0.children@[done@.len() + i]);
            }
        }
        proof {
            assert(kids0.take(kids0.len() as int) =~= kids0);
        }
        let r = FileTreeNode {
            name,
            path,
            children: done,
            expanded,
            status,
            additions: adds,
            deletions: dels,
        };
        proof {
            assert(node_view(r) =~= node_view(n0).recalculated());
        }
        (r, adds, dels)
    }
}

impl NodeView {
    /// Resolving a directory by its full path from this node and flipping
    /// its expand flag.  Yields the new tree and whether a directory was
    /// found; file paths and unknown paths leave the tree unchanged.
    pub open spec fn toggle_at(self, segs: Seq<Seq<char>>) -> (NodeView, bool)
        decreases segs.len(),
    {
        if segs.len() == 0 {
            (self, false)
        } else {
            let j = first_dir_index(self.children, segs[0]);
            if j == -1 {
                (self, false)
            } else if segs.len() == 1 {
                (
                    NodeView {
                        children: self.children.update(j, self.children[j].toggled()),
                        ..self
                    },
                    true,
                )
            } else {
                let sub = self.children[j].toggle_at(segs.skip(1));
                if sub.1 {
                    (NodeView { children: self.children.update(j, sub.0), ..self }, true)
                } else {
                    (self, false)
                }
            }
        }
    }
}

impl FileTreeNode {
    /// Resolves a directory by its full path from this root and toggles
    /// it.  Reports failure for file paths and unknown paths.
    pub fn toggle_at_path(&mut self, target_path: &str) -> (r: bool)
        ensures
            node_view(*final(self)) == node_view(*old(self)).toggle_at(
                split_seq(target_path@, '/'),
            ).0,
            r == node_view(*old(self)).toggle_at(split_seq(target_path@, '/')).1,
    {
        let segs = split_char(target_path, '/');
        proof {
            assert(seg_views(segs@) =~~= segs@.map_values(|t: String| t@));
            assert(seg_views(segs@).skip(0) =~= seg_views(segs@));
        }
        self.toggle_at_segs(&segs, 0)
    }

    /// Resolves and toggles by the remaining segments `segs[k..]`.
    pub(crate) fn toggle_at_segs(&mut self, segs: &Vec<String>, k: usize) -> (r: bool)
        requires
            k <= segs@.len(),
        ensures
            node_view(*final(self)) == node_view(*old(self)).toggle_at(
                seg_views(segs@).skip(k as int),
            ).0,
            r == node_view(*old(self)).toggle_at(seg_views(segs@).skip(k as int)).1,
        decreases segs@.len() - k,
    {
        let ghost sv = seg_views(segs@).skip(k as int);
        if k >= segs.len() {
            return false;
        }
        let found_at = Self::find_dir_child(&self.children, segs[k].as_str());
        proof {
            lemma_first_dir_index(nodes_view(self.children@), segs@[k as int]@);
            lemma_nodes_view(self.children@);
            match found_at {
                Some(j) => {
                    assert(first_dir_index(nodes_view(self.children@), segs@[k as int]@) == j);
                },
                None => {
                    assert(first_dir_index(nodes_view(self.children@), segs@[k as int]@) == -1);
                },
            }
        }
        let Some(j) = found_at else {
            return false;
        };
        let ghost before = self.children@;
        if k == segs.len() - 1 {
            let mut child = self.children.remove(j);
            let _toggled = child.toggle();
            self.children.insert(j, child);
            proof {
                assert forall|i: int| 0 <= i < self.children@.len() implies self.children@[i]
                    == before.update(j as int, child)[i] by {
                    if i < j {
                        assert(before.remove(j as int)[i] == before[i]);
                    } else if i > j {
                        assert(before.remove(j as int)[i - 1] == before[i]);
                    }
                }
                assert(self.children@ =~= before.update(j as int, child));
                lemma_nodes_view_update(before, j as int, child);
                assert(node_view(*self) =~= node_view(*old(self)).toggle_at(sv).0);
            }
            true
        } else {
            let mut child = self.children.remove(j);
            let ok = child.toggle_at_segs(segs, k + 1);
            self.children.insert(j, child);
            proof {
                assert(seg_views(segs@).skip(k as int).skip(1) =~= seg_views(segs@).skip(k + 1));
                assert forall|i: int| 0 <= i < self.children@.len() implies self.children@[i]
                    == before.update(j as int, child)[i] by {
                    if i < j {
                        assert(before.remove(j as int)[i] == before[i]);
                    } else if i > j {
                        assert(before.remove(j as int)[i - 1] == before[i]);
                    }
                }
                assert(self.children@ =~= before.update(j as int, child));
                lemma_nodes_view_update(before, j as int, child);
                if !ok {
                    assert(nodes_view(self.children@) =~= nodes_view(before));
                    assert(node_view(*self) =~= node_view(*old(self)));
                }
                assert(node_view(*self) =~= node_view(*old(self)).toggle_at(sv).0);
            }
            ok
        }
    }
}

/// The paths of the file rows, in display order.
pub open spec fn entry_paths(es: Seq<EntryView>) -> Seq<Seq<char>>
    decreases es,
{
    if es.len() == 0 {
        Seq::empty()
    } else {
        match es[0].path {
            Some(p) => seq![p] + entry_paths(es.skip(1)),
            None => entry_paths(es.skip(1)),
        }
    }
}

proof fn lemma_entry_paths_snoc(es: Seq<EntryView>, i: int)
    requires
        0 <= i < es.len(),
    ensures
        entry_paths(es.take(i + 1)) == (match es[i].path {
            Some(p) => entry_paths(es.take(i)).push(p),
            None => entry_paths(es.take(i)),
        }),
    decreases i + 1,
{
    let a = es.take(i + 1);
    if i == 0 {
        assert(a.skip(1) =~= es.take(0));
        match es[0].path {
            Some(p) => {
                assert(entry_paths(a) =~= entry_paths(es.take(0)).push(p));
            },
            None => {},
        }
    } else {
        lemma_entry_paths_snoc(es.skip(1), i - 1);
        assert(a.skip(1) =~= es.skip(1).take(i));
        assert(es.take(i).skip(1) =~= es.skip(1).take(i - 1));
        assert(a[0] == es[0]);
        assert(es.take(i)[0] == es[0]);
        assert(es.skip(1)[i - 1] == es[i]);
        match es[i].path {
            Some(p) => {
                assert(entry_paths(es.take(i + 1)) =~= entry_paths(es.take(i)).push(p));
            },
            None => {},
        }
    }
}

impl FileTreeNode {
    /// The paths of the files below this root, in display order.
    pub fn file_paths(&self) -> (r: Vec<String>)
        ensures
            r@.map_values(|s: String| s@) == entry_paths(node_view(*self).flatten_at(0)),
    {
        let flat = self.flatten();
        let ghost es = entries_view(flat@);
        let mut out: Vec<String> = Vec::new();
        let mut i: usize = 0;
        proof {
            assert(es.take(0) =~= Seq::<EntryView>::empty());
            assert(out@.map_values(|s: String| s@) =~= entry_paths(es.take(0)));
        }
        while i < flat.len()
            invariant
                i <= flat@.len(),
                es == entries_view(flat@),
                out@.map_values(|s: String| s@) == entry_paths(es.take(i as int)),
            decreases flat@.len() - i,
        {
            proof {
                lemma_entry_paths_snoc(es, i as int);
                assert(es[i as int] == entry_view(flat@[i as int]));
            }
            match &flat[i].path {
                Some(p) => {
                    let ghost out_before = out@;
                    out.push(p.clone());
                    proof {
                        assert(out@.map_values(|s: String| s@) =~= out_before.map_values(
                            |s: String| s@,
                        ).push(p@));
                    }
                },
                None => {},
            }
            i = i + 1;
        }
        proof {
            assert(es.take(es.len() as int) =~= es);
            assert(es.len() == flat@.len());
        }
        out
    }
}

/// The nearest row before `from` (inclusive) with a depth smaller than
/// `d`, or -1 when there is none.
pub open spec fn parent_row(es: Seq<EntryView>, from: int, d: usize) -> int
    decreases from + 1,
    when from < es.len()
{
    if from < 0 {
        -1
    } else if es[from].depth < d {
        from
    } else {
        parent_row(es, from - 1, d)
    }
}

/// `parent_row` stays within bounds and finds a shallower row.
pub proof fn lemma_parent_row(es: Seq<EntryView>, from: int, d: usize)
    requires
        -1 <= from < es.len(),
    ensures
        -1 <= parent_row(es, from, d) <= from,
        parent_row(es, from, d) >= 0 ==> es[parent_row(es, from, d)].depth < d,
    decreases from + 1,
{
    if from >= 0 && !(es[from].depth < d) {
        lemma_parent_row(es, from - 1, d);
    }
}

/// The full path of the row at `idx`: the names of its ancestors, from
/// the root down, then its own name.
pub open spec fn row_path(es: Seq<EntryView>, idx: int) -> Seq<Seq<char>>
    decreases idx,
    when 0 <= idx < es.len()
    via row_path_decreases
{
    let p = parent_row(es, idx - 1, es[idx].depth);
    if p == -1 {
        seq![es[idx].name]
    } else {
        row_path(es, p).push(es[idx].name)
    }
}

#[via_fn]
proof fn row_path_decreases(es: Seq<EntryView>, idx: int) {
    lemma_parent_row(es, idx - 1, es[idx].depth);
}

impl FileTreeNode {
    /// The full path of the flattened row at `idx`: ancestors' names
    /// then the row's own name.
    pub fn row_path_of(flat: &Vec<FlatFileEntry>, idx: usize) -> (r: Vec<String>)
        requires
            idx < flat@.len(),
        ensures
            seg_views(r@) == row_path(entries_view(flat@), idx as int),
        decreases idx,
    {
        let ghost es = entries_view(flat@);
        proof {
            lemma_parent_row(es, idx - 1, es[idx as int].depth);
            assert(es[idx as int] == entry_view(flat@[idx as int]));
        }
        let d = flat[idx].depth;
        let mut p_found: Option<usize> = None;
        if idx > 0 {
            let mut f: usize = idx - 1;
            loop
                invariant
                    f < flat@.len(),
                    idx < flat@.len(),
                    es == entries_view(flat@),
                    es.len() == flat@.len(),
                    parent_row(es, idx - 1, d) == parent_row(es, f as int, d),
                    d == es[idx as int].depth,
                ensures
                    f < flat@.len(),
                    ({
                        let p = parent_row(es, idx - 1, d);
                        if p == -1 {
                            p_found is None
                        } else {
                            p_found == Some(p as usize)
                        }
                    }),
                decreases f,
            {
                proof {
                    assert(es[f as int] == entry_view(flat@[f as int]));
                }
                if flat[f].depth < d {
                    p_found = Some(f);
                    break ;
                }
                if f == 0 {
                    p_found = None;
                    proof {
                        assert(parent_row(es, -1, d) == -1);
                        assert(parent_row(es, 0, d) == -1);
                    }
                    break ;
                }
                f = f - 1;
            }
        }
        let mut r: Vec<String> = match p_found {
            Some(p) => Self::row_path_of(flat, p),
            None => Vec::new(),
        };
        let ghost r_before = r@;
        r.push(flat[idx].name.clone());
        proof {
            assert(seg_views(r@) =~= seg_views(r_before).push(flat@[idx as int].name@));
            assert(seg_views(r@) =~= row_path(es, idx as int));
        }
        r
    }
}

// Order lemmas for the sibling order: `node_lt` is a strict weak order,
// which makes the stable sort below well behaved.

proof fn lemma_lex_lt_asym(a: Seq<char>, b: Seq<char>)
    ensures
        lex_lt(a, b) ==> !lex_lt(b, a),
    decreases a.len(),
{
    if a.len() > 0 && b.len() > 0 && (a[0] as u32) == (b[0] as u32) {
        lemma_lex_lt_asym(a.skip(1), b.skip(1));
    }
}

/// Not coming after is transitive for the lexicographic order.
proof fn lemma_lex_le_trans(a: Seq<char>, b: Seq<char>, c: Seq<char>)
    ensures
        !lex_lt(b, a) && !lex_lt(c, b) ==> !lex_lt(c, a),
    decreases a.len(),
{
    if a.len() > 0 && b.len() > 0 && c.len() > 0 {
        lemma_lex_le_trans(a.skip(1), b.skip(1), c.skip(1));
    }
}

proof fn lemma_lex_lt_trans(a: Seq<char>, b: Seq<char>, c: Seq<char>)
    ensures
        lex_lt(a, b) && lex_lt(b, c) ==> lex_lt(a, c),
    decreases a.len(),
{
    if a.len() > 0 && b.len() > 0 && c.len() > 0 {
        lemma_lex_lt_trans(a.skip(1), b.skip(1), c.skip(1));
    }
    if a.len() > 0 && b.len() > 0 && c.len() == 0 {
    }
}

/// `node_lt` is asymmetric.
proof fn lemma_node_strict(a: NodeView, b: NodeView)
    ensures
        NodeView::node_lt(a, b) ==> !NodeView::node_lt(b, a),
{
    lemma_lex_lt_asym(a.name, b.name);
    lemma_lex_lt_asym(b.name, a.name);
}

/// `node_lt` is transitive, and two siblings unrelated by it have equal
/// keys.
proof fn lemma_node_order(a: NodeView, b: NodeView, c: NodeView)
    ensures
        NodeView::node_lt(a, b) && NodeView::node_lt(b, c) ==> NodeView::node_lt(a, c),
        !NodeView::node_lt(b, a) && !NodeView::node_lt(c, b) ==> !NodeView::node_lt(c, a),
{
    lemma_lex_lt_asym(a.name, b.name);
    lemma_lex_lt_asym(b.name, c.name);
    lemma_lex_lt_asym(a.name, c.name);
    lemma_lex_lt_asym(c.name, a.name);
    lemma_lex_lt_trans(a.name, b.name, c.name);
    lemma_lex_le_trans(a.name, b.name, c.name);
}

impl NodeView {
    /// No sibling comes strictly before an earlier one: directories
    /// first, then names in order.
    pub open spec fn run_sorted(s: Seq<NodeView>) -> bool {
        forall|i: int, j: int|
            0 <= i < j < s.len() ==> !NodeView::node_lt(#[trigger] s[j], #[trigger] s[i])
    }

    /// Every directory's children are ordered, recursively.
    pub open spec fn tree_sorted(self) -> bool
        decreases self,
    {
        Self::run_sorted(self.children) && Self::all_tree_sorted(self.children)
    }

    pub open spec fn all_tree_sorted(s: Seq<NodeView>) -> bool
        decreases s,
    {
        if s.len() == 0 {
            true
        } else {
            s[0].tree_sorted() && Self::all_tree_sorted(s.skip(1))
        }
    }
}

/// `all_tree_sorted` holds exactly when it holds of every element.
proof fn lemma_all_tree_sorted_index(s: Seq<NodeView>)
    ensures
        NodeView::all_tree_sorted(s) <==> (forall|i: int|
            0 <= i < s.len() ==> (#[trigger] s[i]).tree_sorted()),
    decreases s,
{
    if s.len() > 0 {
        lemma_all_tree_sorted_index(s.skip(1));
        assert(forall|i: int| 1 <= i < s.len() ==> s.skip(1)[i - 1] == #[trigger] s[i]);
        if s[0].tree_sorted() && (forall|i: int|
            1 <= i < s.len() ==> (#[trigger] s[i]).tree_sorted()) {
            assert(NodeView::all_tree_sorted(s));
        }
    }
}

/// Inserting into an ordered run keeps it ordered, and the result holds
/// exactly the run's elements plus the new one.
proof fn lemma_insert_sorted_props(s: Seq<NodeView>, x: NodeView)
    requires
        NodeView::run_sorted(s),
    ensures
        NodeView::run_sorted(NodeView::insert_sorted(s, x)),
        NodeView::insert_sorted(s, x).len() == s.len() + 1,
        forall|i: int|
            0 <= i < NodeView::insert_sorted(s, x).len() ==> (#[trigger] NodeView::insert_sorted(
                s,
                x,
            )[i] == x || s.contains(NodeView::insert_sorted(s, x)[i])),
    decreases s.len(),
{
    let r = NodeView::insert_sorted(s, x);
    if s.len() == 0 {
    } else if NodeView::node_lt(x, s[0]) {
        assert(r =~= seq![x] + s);
        assert forall|i: int, j: int| 0 <= i < j < r.len() implies !NodeView::node_lt(
            r[j],
            r[i],
        ) by {
            if i == 0 {
                assert(r[0] == x);
                assert(r[j] == s[j - 1]);
                if j == 1 {
                    lemma_node_strict(x, s[0]);
                } else {
                    assert(!NodeView::node_lt(s[j - 1], s[0]));
                    if NodeView::node_lt(s[j - 1], x) {
                        lemma_node_order(s[j - 1], x, s[0]);
                        assert(false);
                    }
                }
            } else {
                assert(r[i] == s[i - 1] && r[j] == s[j - 1]);
            }
        }
        assert forall|i: int| 0 <= i < r.len() implies (#[trigger] r[i] == x || s.contains(
            r[i],
        )) by {
            if i >= 1 {
                assert(r[i] == s[i - 1]);
                assert(s.contains(s[i - 1]));
            }
        }
    } else {
        let sub = s.skip(1);
        assert forall|i: int, j: int| 0 <= i < j < sub.len() implies !NodeView::node_lt(
            #[trigger] sub[j],
            #[trigger] sub[i],
        ) by {
            assert(sub[j] == s[j + 1] && sub[i] == s[i + 1]);
        }
        lemma_insert_sorted_props(sub, x);
        let rsub = NodeView::insert_sorted(sub, x);
        assert(r =~= seq![s[0]] + rsub);
        assert forall|i: int, j: int| 0 <= i < j < r.len() implies !NodeView::node_lt(
            r[j],
            r[i],
        ) by {
            if i == 0 {
                assert(r[j] == rsub[j - 1]);
                if rsub[j - 1] == x {
                    // not node_lt(x, s[0]) by the branch taken
                } else {
                    assert(sub.contains(rsub[j - 1]));
                    let k = choose|k: int| 0 <= k < sub.len() && sub[k] == rsub[j - 1];
                    assert(sub[k] == s[k + 1]);
                    assert(!NodeView::node_lt(s[k + 1], s[0]));
                }
            } else {
                assert(r[i] == rsub[i - 1] && r[j] == rsub[j - 1]);
            }
        }
        assert forall|i: int| 0 <= i < r.len() implies (#[trigger] r[i] == x || s.contains(
            r[i],
        )) by {
            if i == 0 {
                assert(s.contains(s[0]));
            } else {
                assert(r[i] == rsub[i - 1]);
                if rsub[i - 1] != x {
                    assert(sub.contains(rsub[i - 1]));
                    let k = choose|k: int| 0 <= k < sub.len() && sub[k] == rsub[i - 1];
                    assert(sub[k] == s[k + 1]);
                    assert(s.contains(s[k + 1]));
                }
            }
        }
    }
}

/// A stable sort leaves an ordered run, made of the input's elements.
proof fn lemma_sort_run_props(s: Seq<NodeView>)
    ensures
        NodeView::run_sorted(NodeView::sort_run(s)),
        NodeView::sort_run(s).len() == s.len(),
        forall|i: int|
            0 <= i < NodeView::sort_run(s).len() ==> s.contains(
                #[trigger] NodeView::sort_run(s)[i],
            ),
    decreases s.len(),
{
    if s.len() > 0 {
        lemma_sort_run_props(s.drop_last());
        lemma_insert_sorted_props(NodeView::sort_run(s.drop_last()), s.last());
        let prev = NodeView::sort_run(s.drop_last());
        let r = NodeView::sort_run(s);
        assert forall|i: int| 0 <= i < r.len() implies s.contains(#[trigger] r[i]) by {
            if r[i] == s.last() {
                assert(s[s.len() - 1] == s.last());
            } else {
                assert(prev.contains(r[i]));
                let k = choose|k: int| 0 <= k < prev.len() && prev[k] == r[i];
                assert(s.drop_last().contains(prev[k]));
                let q = choose|q: int| 0 <= q < s.drop_last().len() && s.drop_last()[q] == prev[k];
                assert(s.drop_last()[q] == s[q]);
            }
        }
    }
}

/// `sort_each` sorts every subtree and nothing else.
proof fn lemma_sort_each_props(s: Seq<NodeView>)
    ensures
        NodeView::sort_each(s).len() == s.len(),
        forall|i: int|
            0 <= i < s.len() ==> #[trigger] NodeView::sort_each(s)[i] == s[i].sorted(),
    decreases s,
{
    if s.len() > 0 {
        lemma_sort_each_props(s.skip(1));
        assert(forall|i: int| 1 <= i < s.len() ==> s.skip(1)[i - 1] == #[trigger] s[i]);
    }
}

/// Sorting yields a tree in which, within every directory's children,
/// every directory precedes every file and each group is ordered by
/// name.
pub proof fn lemma_sorted_is_sorted(v: NodeView)
    ensures
        v.sorted().tree_sorted(),
    decreases v,
{
    let each = NodeView::sort_each(v.children);
    lemma_sort_each_props(v.children);
    lemma_sort_run_props(each);
    let run = NodeView::sort_run(each);
    assert forall|i: int| 0 <= i < run.len() implies (#[trigger] run[i]).tree_sorted() by {
        assert(each.contains(run[i]));
        let k = choose|k: int| 0 <= k < each.len() && each[k] == run[i];
        assert(each[k] == v.children[k].sorted());
        assert(decreases_to!(v => v.children[k]));
        lemma_sorted_is_sorted(v.children[k]);
    }
    lemma_all_tree_sorted_index(run);
    assert(v.sorted().children == run);
    assert(v.sorted().tree_sorted());
}

/// Inserting a node that no element comes after appends it.
proof fn lemma_insert_sorted_at_end(s: Seq<NodeView>, x: NodeView)
    requires
        forall|i: int| 0 <= i < s.len() ==> !NodeView::node_lt(x, #[trigger] s[i]),
    ensures
        NodeView::insert_sorted(s, x) == s.push(x),
    decreases s.len(),
{
    if s.len() == 0 {
        assert(NodeView::insert_sorted(s, x) =~= s.push(x));
    } else {
        assert forall|i: int| 0 <= i < s.skip(1).len() implies !NodeView::node_lt(
            x,
            #[trigger] s.skip(1)[i],
        ) by {
            assert(s.skip(1)[i] == s[i + 1]);
        }
        lemma_insert_sorted_at_end(s.skip(1), x);
        assert(NodeView::insert_sorted(s, x) =~= s.push(x));
    }
}

/// An ordered run is its own stable sort.
proof fn lemma_sort_run_fixpoint(s: Seq<NodeView>)
    requires
        NodeView::run_sorted(s),
    ensures
        NodeView::sort_run(s) == s,
    decreases s.len(),
{
    if s.len() > 0 {
        let d = s.drop_last();
        assert forall|i: int, j: int| 0 <= i < j < d.len() implies !NodeView::node_lt(
            #[trigger] d[j],
            #[trigger] d[i],
        ) by {
            assert(d[j] == s[j] && d[i] == s[i]);
        }
        lemma_sort_run_fixpoint(d);
        assert forall|i: int| 0 <= i < d.len() implies !NodeView::node_lt(
            s.last(),
            #[trigger] d[i],
        ) by {
            assert(d[i] == s[i]);
            assert(!NodeView::node_lt(s[s.len() - 1], s[i]));
        }
        lemma_insert_sorted_at_end(d, s.last());
        assert(NodeView::sort_run(s) =~= s);
    }
}

/// A fully sorted tree is its own sort.
pub proof fn lemma_sorted_fixpoint(v: NodeView)
    requires
        v.tree_sorted(),
    ensures
        v.sorted() == v,
    decreases v,
{
    lemma_sort_each_props(v.children);
    lemma_all_tree_sorted_index(v.children);
    assert forall|i: int| 0 <= i < v.children.len() implies #[trigger] NodeView::sort_each(
        v.children,
    )[i] == v.children[i] by {
        assert(v.children[i].tree_sorted());
        assert(decreases_to!(v => v.children[i]));
        lemma_sorted_fixpoint(v.children[i]);
    }
    assert(NodeView::sort_each(v.children) =~= v.children);
    lemma_sort_run_fixpoint(v.children);
    assert(v.sorted() =~= v);
}

/// Sorting twice yields the identical order as sorting once.
pub proof fn lemma_sort_idempotent(v: NodeView)
    ensures
        v.sorted().sorted() == v.sorted(),
{
    lemma_sorted_is_sorted(v);
    lemma_sorted_fixpoint(v.sorted());
}

// Aggregate-count laws.

impl NodeView {
    /// Every directory's counts equal the (clamped) sums over its
    /// descendant files.
    pub open spec fn stats_ok(self) -> bool
        decreases self,
    {
        &&& (self.path is None ==> self.additions == crate::diff::clamp_usize(self.sum_adds())
            && self.deletions == crate::diff::clamp_usize(self.sum_dels()))
        &&& Self::all_stats_ok(self.children)
    }

    pub open spec fn all_stats_ok(s: Seq<NodeView>) -> bool
        decreases s,
    {
        if s.len() == 0 {
            true
        } else {
            s[0].stats_ok() && Self::all_stats_ok(s.skip(1))
        }
    }
}

impl NodeView {
    /// Structural validity: a node with a path never has children.
    pub open spec fn struct_wf(self) -> bool
        decreases self,
    {
        (self.path is Some ==> self.children.len() == 0) && Self::all_struct_wf(self.children)
    }

    pub open spec fn all_struct_wf(s: Seq<NodeView>) -> bool
        decreases s,
    {
        if s.len() == 0 {
            true
        } else {
            s[0].struct_wf() && Self::all_struct_wf(s.skip(1))
        }
    }
}

proof fn lemma_all_struct_wf_index(s: Seq<NodeView>)
    ensures
        NodeView::all_struct_wf(s) <==> (forall|i: int|
            0 <= i < s.len() ==> (#[trigger] s[i]).struct_wf()),
    decreases s,
{
    if s.len() > 0 {
        lemma_all_struct_wf_index(s.skip(1));
        assert(forall|i: int| 1 <= i < s.len() ==> s.skip(1)[i - 1] == #[trigger] s[i]);
        if s[0].struct_wf() && (forall|i: int|
            1 <= i < s.len() ==> (#[trigger] s[i]).struct_wf()) {
            assert(NodeView::all_struct_wf(s));
        }
    }
}

/// Inserting below a directory keeps the tree structurally valid.
proof fn lemma_inserted_wf(v: NodeView, segs: Seq<Seq<char>>, fd: FileDiffView)
    requires
        v.struct_wf(),
        v.path is None,
    ensures
        v.inserted(segs, fd).struct_wf(),
        v.inserted(segs, fd).path is None,
    decreases segs.len(),
{
    lemma_all_struct_wf_index(v.children);
    if segs.len() == 0 {
    } else if segs.len() == 1 {
        let leaf = NodeView::new_file(segs[0], fd.path, fd);
        assert(leaf.struct_wf()) by {
            assert(leaf.children =~= Seq::<NodeView>::empty());
        }
        let r = v.inserted(segs, fd);
        assert forall|i: int| 0 <= i < r.children.len() implies (#[trigger] r.children[
            i
        ]).struct_wf() by {
            if i < v.children.len() {
                assert(r.children[i] == v.children[i]);
            } else {
                assert(r.children[i] == leaf);
            }
        }
        lemma_all_struct_wf_index(r.children);
    } else {
        let j = first_dir_index(v.children, segs[0]);
        lemma_first_dir_index(v.children, segs[0]);
        if j == -1 {
            let fresh = NodeView::new_dir(segs[0]);
            assert(fresh.struct_wf()) by {
                assert(fresh.children =~= Seq::<NodeView>::empty());
            }
            lemma_inserted_wf(fresh, segs.skip(1), fd);
            let sub = fresh.inserted(segs.skip(1), fd);
            let r = v.inserted(segs, fd);
            assert forall|i: int| 0 <= i < r.children.len() implies (#[trigger] r.children[
                i
            ]).struct_wf() by {
                if i < v.children.len() {
                    assert(r.children[i] == v.children[i]);
                } else {
                    assert(r.children[i] == sub);
                }
            }
            lemma_all_struct_wf_index(r.children);
        } else {
            lemma_inserted_wf(v.children[j], segs.skip(1), fd);
            let sub = v.children[j].inserted(segs.skip(1), fd);
            let r = v.inserted(segs, fd);
            assert forall|i: int| 0 <= i < r.children.len() implies (#[trigger] r.children[
                i
            ]).struct_wf() by {
                if i == j {
                    assert(r.children[i] == sub);
                } else {
                    assert(r.children[i] == v.children[i]);
                }
            }
            lemma_all_struct_wf_index(r.children);
        }
    }
}

/// The tree built from a file list is structurally valid: file nodes
/// never carry children.
pub proof fn lemma_built_from_wf(files: Seq<FileDiffView>)
    ensures
        NodeView::built_from(files).struct_wf(),
        NodeView::built_from(files).path is None,
    decreases files.len(),
{
    if files.len() == 0 {
        assert(NodeView::empty_root().children =~= Seq::<NodeView>::empty());
    } else {
        lemma_built_from_wf(files.drop_last());
        lemma_inserted_wf(
            NodeView::built_from(files.drop_last()),
            split_seq(files.last().path, '/'),
            files.last(),
        );
    }
}

/// Sorting keeps the tree structurally valid.
pub proof fn lemma_sorted_wf(v: NodeView)
    requires
        v.struct_wf(),
    ensures
        v.sorted().struct_wf(),
        v.sorted().path == v.path,
    decreases v,
{
    lemma_all_struct_wf_index(v.children);
    lemma_sort_each_props(v.children);
    let each = NodeView::sort_each(v.children);
    assert forall|i: int| 0 <= i < each.len() implies (#[trigger] each[i]).struct_wf() by {
        assert(each[i] == v.children[i].sorted());
        assert(decreases_to!(v => v.children[i]));
        lemma_sorted_wf(v.children[i]);
    }
    lemma_sort_run_props(each);
    let run = NodeView::sort_run(each);
    assert forall|i: int| 0 <= i < run.len() implies (#[trigger] run[i]).struct_wf() by {
        assert(each.contains(run[i]));
        let k = choose|k: int| 0 <= k < each.len() && each[k] == run[i];
    }
    lemma_all_struct_wf_index(run);
    if v.path is Some {
        assert(v.children.len() == 0);
        assert(each =~= Seq::<NodeView>::empty());
        assert(run =~= Seq::<NodeView>::empty());
    }
}

/// The tree the library builds for a diff — built from the paths,
/// sorted, aggregates recalculated — satisfies the aggregate-count law:
/// every directory's counts equal the sums over its descendant files.
pub proof fn lemma_library_tree_stats(files: Seq<FileDiffView>)
    ensures
        NodeView::built_from(files).sorted().recalculated().stats_ok(),
{
    lemma_built_from_wf(files);
    lemma_sorted_wf(NodeView::built_from(files));
    lemma_recalculated_stats(NodeView::built_from(files).sorted());
}

/// Recalculation does not change what the files sum to.
proof fn lemma_recalc_preserves_sums(v: NodeView)
    ensures
        v.recalculated().sum_adds() == v.sum_adds(),
        v.recalculated().sum_dels() == v.sum_dels(),
    decreases v,
{
    if v.path is None {
        lemma_recalc_children_sums(v.children);
    }
}

proof fn lemma_recalc_children_sums(s: Seq<NodeView>)
    ensures
        NodeView::sum_adds_children(NodeView::recalc_children(s)) == NodeView::sum_adds_children(
            s,
        ),
        NodeView::sum_dels_children(NodeView::recalc_children(s)) == NodeView::sum_dels_children(
            s,
        ),
    decreases s,
{
    if s.len() > 0 {
        lemma_recalc_preserves_sums(s[0]);
        lemma_recalc_children_sums(s.skip(1));
        assert(NodeView::recalc_children(s)[0] == s[0].recalculated());
        assert(NodeView::recalc_children(s).skip(1) =~= NodeView::recalc_children(s.skip(1)));
    }
}

/// After recalculation of a structurally valid tree, every directory's
/// addition and deletion counts equal the sums over its descendant
/// files' counts.
pub proof fn lemma_recalculated_stats(v: NodeView)
    requires
        v.struct_wf(),
    ensures
        v.recalculated().stats_ok(),
    decreases v,
{
    if v.path is Some {
        assert(v.children =~= Seq::<NodeView>::empty());
        assert(v.recalculated() == v);
        assert(NodeView::all_stats_ok(v.children));
    } else {
        lemma_recalc_preserves_sums(v);
        lemma_all_struct_wf_index(v.children);
        lemma_recalc_children_stats(v.children, v);
    }
}

proof fn lemma_recalc_children_stats(s: Seq<NodeView>, parent: NodeView)
    requires
        forall|i: int| 0 <= i < s.len() ==> parent.children.contains(#[trigger] s[i]),
        forall|i: int| 0 <= i < s.len() ==> (#[trigger] s[i]).struct_wf(),
    ensures
        NodeView::all_stats_ok(NodeView::recalc_children(s)),
    decreases s,
{
    if s.len() > 0 {
        assert(parent.children.contains(s[0]));
        let k = choose|k: int| 0 <= k < parent.children.len() && parent.children[k] == s[0];
        assert(decreases_to!(parent => parent.children[k]));
        lemma_recalculated_stats(parent.children[k]);
        assert forall|i: int| 0 <= i < s.skip(1).len() implies parent.children.contains(
            #[trigger] s.skip(1)[i],
        ) && s.skip(1)[i].struct_wf() by {
            assert(s.skip(1)[i] == s[i + 1]);
        }
        lemma_recalc_children_stats(s.skip(1), parent);
        assert(NodeView::recalc_children(s)[0] == s[0].recalculated());
        assert(NodeView::recalc_children(s).skip(1) =~= NodeView::recalc_children(s.skip(1)));
        assert(NodeView::all_stats_ok(NodeView::recalc_children(s)));
    }
}

/// Updating a child with one of the same name and kind does not move
/// the first matching directory.
proof fn lemma_first_dir_index_update(s: Seq<NodeView>, j: int, x: NodeView, name: Seq<char>)
    requires
        0 <= j < s.len(),
        x.name == s[j].name,
        x.path is None <==> s[j].path is None,
    ensures
        first_dir_index(s.update(j, x), name) == first_dir_index(s, name),
    decreases s,
{
    if s.len() > 0 {
        if j == 0 {
            assert(s.update(j, x)[0] == x);
            assert(s.update(j, x).skip(1) =~= s.skip(1));
        } else {
            assert(s.update(j, x)[0] == s[0]);
            assert(s.update(j, x).skip(1) =~= s.skip(1).update(j - 1, x));
            lemma_first_dir_index_update(s.skip(1), j - 1, x, name);
        }
    }
}

/// Toggling a directory by path and toggling it again restores the
/// tree exactly: re-expanding yields the identical prior tree, and with
/// it the identical prior flattened sequence.
pub proof fn lemma_toggle_at_involution(v: NodeView, segs: Seq<Seq<char>>)
    ensures
        v.toggle_at(segs).0.name == v.name,
        v.toggle_at(segs).0.path == v.path,
        v.toggle_at(segs).1 ==> v.toggle_at(segs).0.toggle_at(segs) == (v, true),
    decreases segs.len(),
{
    if segs.len() == 0 {
    } else {
        let j = first_dir_index(v.children, segs[0]);
        lemma_first_dir_index(v.children, segs[0]);
        if j == -1 {
        } else if segs.len() == 1 {
            let c = v.children[j];
            let c2 = c.toggled();
            let v2 = NodeView { children: v.children.update(j, c2), ..v };
            assert(v2.children[j] == c2);
            lemma_first_dir_index_update(v.children, j, c2, segs[0]);
            assert(first_dir_index(v2.children, segs[0]) == j);
            assert(c2.toggled() == c);
            assert(v2.children.update(j, c2.toggled()) =~= v.children);
            assert(v2.toggle_at(segs).0 =~= v);
        } else {
            let c = v.children[j];
            let sub = c.toggle_at(segs.skip(1));
            lemma_toggle_at_involution(c, segs.skip(1));
            if sub.1 {
                let v2 = NodeView { children: v.children.update(j, sub.0), ..v };
                assert(v2.children[j] == sub.0);
                lemma_first_dir_index_update(v.children, j, sub.0, segs[0]);
                assert(first_dir_index(v2.children, segs[0]) == j);
                assert(sub.0.toggle_at(segs.skip(1)) == (c, true));
                assert(v2.children.update(j, c) =~= v.children);
                assert(v2.toggle_at(segs).0 =~= v);
                assert(v.toggle_at(segs).0 == v2);
            }
        }
    }
}

/// A sibling sequence's rows split around one sibling.
proof fn lemma_flatten_children_split(s: Seq<NodeView>, depth: usize, j: int)
    requires
        0 <= j < s.len(),
    ensures
        NodeView::flatten_children(s, depth) == NodeView::flatten_children(s.take(j), depth)
            + s[j].flatten_at(depth) + NodeView::flatten_children(s.skip(j + 1), depth),
    decreases j + 1,
{
    if j == 0 {
        assert(s.take(0) =~= Seq::<NodeView>::empty());
        assert(s.skip(1) =~= s.skip(1));
        assert(NodeView::flatten_children(s, depth) =~= NodeView::flatten_children(
            s.take(0),
            depth,
        ) + s[0].flatten_at(depth) + NodeView::flatten_children(s.skip(1), depth));
    } else {
        lemma_flatten_children_split(s.skip(1), depth, j - 1);
        assert(s.skip(1).take(j - 1) =~= s.take(j).skip(1));
        assert(s.skip(1)[j - 1] == s[j]);
        assert(s.skip(1).skip(j) =~= s.skip(j + 1));
        assert(s.take(j)[0] == s[0]);
        assert(NodeView::flatten_children(s, depth) =~= NodeView::flatten_children(
            s.take(j),
            depth,
        ) + s[j].flatten_at(depth) + NodeView::flatten_children(s.skip(j + 1), depth));
    }
}

/// Every directory along the resolved path is shown: the walk stays
/// within expanded directories (the unnamed root always shows its
/// children).
pub open spec fn path_expanded(v: NodeView, segs: Seq<Seq<char>>) -> bool
    decreases segs.len(),
{
    segs.len() == 0 || {
        let j = first_dir_index(v.children, segs[0]);
        (v.expanded || v.name.len() == 0) && (j != -1 ==> (segs.len() == 1 || path_expanded(
            v.children[j],
            segs.skip(1),
        )))
    }
}

/// The flattened sequences before and after a toggle, decomposed: a
/// shared prefix and suffix, the toggled directory's own row with its
/// expand flag flipped, and the block of its descendants' rows present
/// exactly on the expanded side.
pub open spec fn toggle_block(
    v: NodeView,
    v2: NodeView,
    pre: Seq<EntryView>,
    suf: Seq<EntryView>,
    node: NodeView,
    d: usize,
    depth: usize,
) -> bool {
    &&& node.is_dir()
    &&& v.flatten_at(depth) == pre + seq![node.entry_at(d)] + (if node.expanded {
        NodeView::flatten_children(node.children, next_depth(d))
    } else {
        Seq::empty()
    }) + suf
    &&& v2.flatten_at(depth) == pre + seq![node.toggled().entry_at(d)] + (if !node.expanded {
        NodeView::flatten_children(node.children, next_depth(d))
    } else {
        Seq::empty()
    }) + suf
}

/// Collapsing a directory removes from the flattened sequence exactly
/// the block of rows that were its expanded descendants, and nothing
/// else; re-expanding restores them in place.
/// One toggled child's decomposition lifted to its parent.
#[verifier::rlimit(100)]
proof fn lemma_toggle_assemble(
    v: NodeView,
    j: int,
    c_new: NodeView,
    pre_c: Seq<EntryView>,
    suf_c: Seq<EntryView>,
    node: NodeView,
    d: usize,
    depth: usize,
)
    requires
        0 <= j < v.children.len(),
        v.expanded || v.name.len() == 0,
        toggle_block(
            v.children[j],
            c_new,
            pre_c,
            suf_c,
            node,
            d,
            if v.name.len() == 0 {
                0usize
            } else {
                next_depth(depth)
            },
        ),
    ensures
        exists|pre: Seq<EntryView>, suf: Seq<EntryView>| #[trigger] toggle_block(
            v,
            NodeView { children: v.children.update(j, c_new), ..v },
            pre,
            suf,
            node,
            d,
            depth,
        ),
{
    let kid_depth: usize = if v.name.len() == 0 {
        0usize
    } else {
        next_depth(depth)
    };
    let own: Seq<EntryView> = if v.name.len() == 0 {
        Seq::empty()
    } else {
        seq![v.entry_at(depth)]
    };
    let c = v.children[j];
    let v2 = NodeView { children: v.children.update(j, c_new), ..v };
    lemma_flatten_children_split(v.children, kid_depth, j);
    lemma_flatten_children_split(v.children.update(j, c_new), kid_depth, j);
    assert(v.children.update(j, c_new).take(j) =~= v.children.take(j));
    assert(v.children.update(j, c_new).skip(j + 1) =~= v.children.skip(j + 1));
    assert(v.children.update(j, c_new)[j] == c_new);
    let t = NodeView::flatten_children(v.children.take(j), kid_depth);
    let u = NodeView::flatten_children(v.children.skip(j + 1), kid_depth);
    let block_old: Seq<EntryView> = if node.expanded {
        NodeView::flatten_children(node.children, next_depth(d))
    } else {
        Seq::empty()
    };
    let block_new: Seq<EntryView> = if !node.expanded {
        NodeView::flatten_children(node.children, next_depth(d))
    } else {
        Seq::empty()
    };
    assert(v.flatten_at(depth) =~= own + (t + c.flatten_at(kid_depth) + u));
    assert(v2.flatten_at(depth) =~= own + (t + c_new.flatten_at(kid_depth) + u));
    assert(c.flatten_at(kid_depth) == pre_c + seq![node.entry_at(d)] + block_old + suf_c);
    assert(c_new.flatten_at(kid_depth) == pre_c + seq![node.toggled().entry_at(d)] + block_new
        + suf_c);
    let pre = own + t + pre_c;
    let suf = suf_c + u;
    assert(own + (t + (pre_c + seq![node.entry_at(d)] + block_old + suf_c) + u) =~= pre + seq![
        node.entry_at(d),
    ] + block_old + suf);
    assert(own + (t + (pre_c + seq![node.toggled().entry_at(d)] + block_new + suf_c) + u) =~= pre
        + seq![node.toggled().entry_at(d)] + block_new + suf);
    assert(toggle_block(v, v2, pre, suf, node, d, depth));
}

/// A named directory's own rows decompose around its expand flag.
proof fn lemma_toggle_block_self(c: NodeView, d: usize)
    requires
        c.path is None,
        c.name.len() > 0,
    ensures
        toggle_block(c, c.toggled(), Seq::empty(), Seq::empty(), c, d, d),
{
    let c2 = c.toggled();
    assert(c.flatten_at(d) =~= Seq::empty() + seq![c.entry_at(d)] + (if c.expanded {
        NodeView::flatten_children(c.children, next_depth(d))
    } else {
        Seq::<EntryView>::empty()
    }) + Seq::<EntryView>::empty());
    assert(c2.flatten_at(d) =~= Seq::empty() + seq![c2.entry_at(d)] + (if c2.expanded {
        NodeView::flatten_children(c2.children, next_depth(d))
    } else {
        Seq::<EntryView>::empty()
    }) + Seq::<EntryView>::empty());
}

/// Collapsing a directory removes from the flattened sequence exactly
/// the block of rows that were its expanded descendants, and nothing
/// else; re-expanding restores them in place.
#[verifier::rlimit(100)]
pub proof fn lemma_toggle_at_flatten(v: NodeView, segs: Seq<Seq<char>>, depth: usize)
    requires
        v.toggle_at(segs).1,
        path_expanded(v, segs),
        forall|i: int| 0 <= i < segs.len() ==> (#[trigger] segs[i]).len() > 0,
    ensures
        exists|pre: Seq<EntryView>, suf: Seq<EntryView>, node: NodeView, d: usize| #[trigger]
        toggle_block(v, v.toggle_at(segs).0, pre, suf, node, d, depth),
    decreases segs.len(),
{
    let j = first_dir_index(v.children, segs[0]);
    lemma_first_dir_index(v.children, segs[0]);
    let kid_depth: usize = if v.name.len() == 0 {
        0usize
    } else {
        next_depth(depth)
    };
    let c = v.children[j];
    if segs.len() == 1 {
        let c2 = c.toggled();
        let v2 = v.toggle_at(segs).0;
        assert(v2 == NodeView { children: v.children.update(j, c2), ..v });
        lemma_toggle_block_self(c, kid_depth);
        lemma_toggle_assemble(v, j, c2, Seq::empty(), Seq::empty(), c, kid_depth, depth);
        let (pre, suf) = choose|pre: Seq<EntryView>, suf: Seq<EntryView>| #[trigger] toggle_block(
            v,
            NodeView { children: v.children.update(j, c2), ..v },
            pre,
            suf,
            c,
            kid_depth,
            depth,
        );
        assert(toggle_block(v, v2, pre, suf, c, kid_depth, depth));
    } else {
        let sub = c.toggle_at(segs.skip(1));
        let v2 = v.toggle_at(segs).0;
        assert(sub.1);
        assert(forall|i: int|
            0 <= i < segs.skip(1).len() ==> (#[trigger] segs.skip(1)[i]).len() > 0);
        lemma_toggle_at_flatten(c, segs.skip(1), kid_depth);
        let (pre_c, suf_c, node, d) = choose|pre_c: Seq<EntryView>, suf_c: Seq<
            EntryView,
        >, node: NodeView, d: usize|
            #[trigger] toggle_block(c, c.toggle_at(segs.skip(1)).0, pre_c, suf_c, node, d, kid_depth);
        lemma_toggle_assemble(v, j, sub.0, pre_c, suf_c, node, d, depth);
        assert(v2 == NodeView { children: v.children.update(j, sub.0), ..v });
        let (pre, suf) = choose|pre: Seq<EntryView>, suf: Seq<EntryView>| #[trigger] toggle_block(
            v,
            NodeView { children: v.children.update(j, sub.0), ..v },
            pre,
            suf,
            node,
            d,
            depth,
        );
        assert(toggle_block(v, v2, pre, suf, node, d, depth));
    }
}

impl FlatFileEntry {
    /// The icon shown in front of this entry.
    pub fn icon(&self) -> (r: &'static str)
        ensures
            self.is_dir && self.is_expanded ==> r@ == "▼ "@,
            self.is_dir && !self.is_expanded ==> r@ == "▶ "@,
            !self.is_dir ==> r@ == "  "@,
    {
        if self.is_dir {
            if self.is_expanded {
                "▼ "
            } else {
                "▶ "
            }
        } else {
            "  "
        }
    }

    /// Two spaces for every level of depth.
    pub fn indent(&self) -> (r: String)
        ensures
            r@ == Seq::<char>::new(2 * self.depth as nat, |i: int| ' '),
    {
        let mut out: String = String::new();
        let mut i: usize = 0;
        while i < self.depth
            invariant
                i <= self.depth,
                out@ =~= Seq::<char>::new(2 * i as nat, |j: int| ' '),
            decreases self.depth - i,
        {
            out.push(' ');
            out.push(' ');
            proof {
                assert(out@ =~= Seq::<char>::new(2 * (i + 1) as nat, |j: int| ' '));
            }
            i = i + 1;
        }
        out
    }
}

} // verus!
