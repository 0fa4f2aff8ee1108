//! In-memory filesystem: a tree of named files and folders with a current
//! working directory, driven by the shell's `chd`/`cre`/`con`/`info` commands.
use vstd::prelude::*;
use crate::text::{chars_eq, chars_of, decimal, decimal_string, lines, split_lines, str_eq, strings_view};

verus! {

/// A file or a folder of the filesystem tree.
pub enum Node {
    File { name: String, content: String },
    Dir { name: String, children: Vec<Node> },
}

/// The abstract value of a [`Node`]: names, contents and children as sequences.
pub enum NodeView {
    File { name: Seq<char>, content: Seq<char> },
    Dir { name: Seq<char>, children: Seq<NodeView> },
}

pub open spec fn node_view(n: Node) -> NodeView
    decreases n,
{
    match n {
        Node::File { name, content } => NodeView::File { name: name@, content: content@ },
        Node::Dir { name, children } => NodeView::Dir {
            name: name@,
            children: Seq::new(
                children@.len(),
                |i: int|
                    if 0 <= i < children@.len() {
                        proof {
                            assert(decreases_to!(children => children@));
                        }
                        node_view(children@[i])
                    } else {
                        NodeView::File { name: Seq::empty(), content: Seq::empty() }
                    },
            ),
        },
    }
}

/// The abstract values of a sequence of nodes.
pub open spec fn nodes_view(s: Seq<Node>) -> Seq<NodeView> {
    Seq::new(s.len(), |i: int| node_view(s[i]))
}

impl View for Node {
    type V = NodeView;

    open spec fn view(&self) -> NodeView {
        node_view(*self)
    }
}

/// The name of a node.
pub open spec fn name_of(n: NodeView) -> Seq<char> {
    match n {
        NodeView::File { name, .. } => name,
        NodeView::Dir { name, .. } => name,
    }
}

/// The names of a sequence of nodes, in order.
pub open spec fn names(children: Seq<NodeView>) -> Seq<Seq<char>> {
    Seq::new(children.len(), |i: int| name_of(children[i]))
}

/// `i` is the first position in `children` of a node called `name`.
pub open spec fn is_first_named(children: Seq<NodeView>, name: Seq<char>, i: int) -> bool {
    &&& 0 <= i < children.len()
    &&& name_of(children[i]) == name
    &&& forall|j: int| 0 <= j < i ==> name_of(#[trigger] children[j]) != name
}

/// The position of the first node called `name` in `children`, if any.
pub open spec fn first_named(children: Seq<NodeView>, name: Seq<char>) -> Option<int> {
    if exists|i: int| is_first_named(children, name, i) {
        Some(choose|i: int| is_first_named(children, name, i))
    } else {
        None
    }
}

/// No two of `children` share a name.
pub open spec fn distinct_names(children: Seq<NodeView>) -> bool {
    forall|i: int, j: int|
        0 <= i < children.len() && 0 <= j < children.len() && i != j ==> name_of(
            #[trigger] children[i],
        ) != name_of(#[trigger] children[j])
}

/// In every folder of the tree under `n`, no two children share a name.
pub open spec fn names_distinct(n: NodeView) -> bool
    decreases n,
{
    match n {
        NodeView::File { .. } => true,
        NodeView::Dir { children, .. } => {
            &&& distinct_names(children)
            &&& forall|i: int|
                0 <= i < children.len() ==> {
                    proof {
                        assert(decreases_to!(n => children[i]));
                    }
                    names_distinct(#[trigger] children[i])
                }
        },
    }
}

/// The children of the folder reached from `root` by following `path`,
/// folder name by folder name; `None` where a name is missing or names a file.
pub open spec fn dir_at(root: NodeView, path: Seq<Seq<char>>) -> Option<Seq<NodeView>>
    decreases path.len(),
{
    match root {
        NodeView::File { .. } => None,
        NodeView::Dir { children, .. } => {
            if path.len() == 0 {
                Some(children)
            } else {
                match first_named(children, path[0]) {
                    Some(i) => dir_at(children[i], path.drop_first()),
                    None => None,
                }
            }
        },
    }
}

/// `root` with the children of the folder at `path` replaced by `new_children`.
pub open spec fn with_dir(root: NodeView, path: Seq<Seq<char>>, new_children: Seq<NodeView>) -> NodeView
    decreases path.len(),
{
    match root {
        NodeView::File { .. } => root,
        NodeView::Dir { name, children } => {
            if path.len() == 0 {
                NodeView::Dir { name, children: new_children }
            } else {
                match first_named(children, path[0]) {
                    Some(i) => NodeView::Dir {
                        name,
                        children: children.update(
                            i,
                            with_dir(children[i], path.drop_first(), new_children),
                        ),
                    },
                    None => root,
                }
            }
        },
    }
}

/// Why a filesystem request was refused.
#[derive(Debug, PartialEq, Eq, Structural)]
pub enum VfsError {
    NotFound,
    NotADirectory,
    AlreadyExists,
    IsADirectory,
}

/// The in-memory filesystem: the root folder and the path of folder names
/// from the root to the current directory.
pub struct Vfs {
    root: Node,
    cwd: Vec<String>,
}

/// The abstract value of a [`Vfs`].
pub struct VfsView {
    pub root: NodeView,
    pub cwd: Seq<Seq<char>>,
}

impl VfsView {
    /// The current directory exists, and no folder holds two nodes of the
    /// same name.
    pub open spec fn wf(self) -> bool {
        &&& dir_at(self.root, self.cwd) is Some
        &&& names_distinct(self.root)
    }

    /// The children of the current directory.
    pub open spec fn here(self) -> Seq<NodeView> {
        dir_at(self.root, self.cwd)->0
    }

    pub open spec fn with_cwd(self, cwd: Seq<Seq<char>>) -> VfsView {
        VfsView { root: self.root, cwd }
    }

    pub open spec fn with_here(self, children: Seq<NodeView>) -> VfsView {
        VfsView { root: with_dir(self.root, self.cwd, children), cwd: self.cwd }
    }
}

impl View for Vfs {
    type V = VfsView;

    closed spec fn view(&self) -> VfsView {
        VfsView { root: self.root@, cwd: strings_view(self.cwd@) }
    }
}

/// A freshly created, empty file or folder called `name`.
pub open spec fn new_node(name: Seq<char>, is_dir: bool) -> NodeView {
    if is_dir {
        NodeView::Dir { name, children: seq![] }
    } else {
        NodeView::File { name, content: seq![] }
    }
}

/// Outcome of `chd`: the new state and the result.
pub open spec fn chd_spec(v: VfsView, target: Seq<char>) -> (VfsView, Result<(), VfsError>) {
    if target == "/"@ {
        (v.with_cwd(seq![]), Ok(()))
    } else if target == ".."@ {
        (v.with_cwd(if v.cwd.len() == 0 { v.cwd } else { v.cwd.drop_last() }), Ok(()))
    } else {
        match dir_at(v.root, v.cwd) {
            None => (v, Err(VfsError::NotADirectory)),
            Some(children) => match first_named(children, target) {
                Some(i) => match children[i] {
                    NodeView::Dir { .. } => (v.with_cwd(v.cwd.push(target)), Ok(())),
                    NodeView::File { .. } => (v, Err(VfsError::NotADirectory)),
                },
                None => (v, Err(VfsError::NotFound)),
            },
        }
    }
}

/// Outcome of `cre`: the new state and the result.
pub open spec fn cre_spec(v: VfsView, name: Seq<char>, is_dir: bool) -> (VfsView, Result<(), VfsError>) {
    match dir_at(v.root, v.cwd) {
        None => (v, Err(VfsError::NotADirectory)),
        Some(children) => if first_named(children, name) is Some {
            (v, Err(VfsError::AlreadyExists))
        } else {
            (v.with_here(children.push(new_node(name, is_dir))), Ok(()))
        },
    }
}

/// Outcome of `write_file`: the new state and the result.
pub open spec fn write_file_spec(v: VfsView, name: Seq<char>, content: Seq<char>) -> (
    VfsView,
    Result<(), VfsError>,
) {
    match dir_at(v.root, v.cwd) {
        None => (v, Err(VfsError::NotADirectory)),
        Some(children) => match first_named(children, name) {
            Some(i) => match children[i] {
                NodeView::File { name: n, .. } => (
                    v.with_here(children.update(i, NodeView::File { name: n, content })),
                    Ok(()),
                ),
                NodeView::Dir { .. } => (v, Err(VfsError::IsADirectory)),
            },
            None => (v, Err(VfsError::NotFound)),
        },
    }
}

/// Result of `con`: the lines of a file, or the names in a folder.
pub open spec fn con_spec(v: VfsView, name: Seq<char>) -> Result<Seq<Seq<char>>, VfsError> {
    match dir_at(v.root, v.cwd) {
        None => Err(VfsError::NotADirectory),
        Some(children) => match first_named(children, name) {
            Some(i) => match children[i] {
                NodeView::File { content, .. } => Ok(lines(content)),
                NodeView::Dir { children: inner, .. } => Ok(names(inner)),
            },
            None => Err(VfsError::NotFound),
        },
    }
}

/// Result of `con_here`: the names in the current directory.
pub open spec fn con_here_spec(v: VfsView) -> Seq<Seq<char>> {
    match dir_at(v.root, v.cwd) {
        Some(children) => names(children),
        None => seq![],
    }
}

/// Result of `info`: the kind of the named node and a detail line.
pub open spec fn info_spec(v: VfsView, name: Seq<char>) -> Result<(Seq<char>, Seq<char>), VfsError> {
    match dir_at(v.root, v.cwd) {
        None => Err(VfsError::NotADirectory),
        Some(children) => match first_named(children, name) {
            Some(i) => match children[i] {
                NodeView::File { content, .. } => Ok(
                    (
                        "file"@,
                        decimal((vstd::utf8::encode_utf8(content).len() as usize) as nat) + " bytes"@,
                    ),
                ),
                NodeView::Dir { children: inner, .. } => Ok(
                    ("directory"@, decimal(inner.len()) + " items"@),
                ),
            },
            None => Err(VfsError::NotFound),
        },
    }
}

/// `"/a/b"` for the path `[a, b]`.
pub open spec fn path_text(cwd: Seq<Seq<char>>) -> Seq<char>
    decreases cwd.len(),
{
    if cwd.len() == 0 {
        seq![]
    } else {
        path_text(cwd.drop_last()) + "/"@ + cwd.last()
    }
}

/// The text `cwd_path` shows for a current directory.
pub open spec fn cwd_path_spec(cwd: Seq<Seq<char>>) -> Seq<char> {
    if cwd.len() == 0 {
        "/"@
    } else {
        path_text(cwd)
    }
}

/// The abstract value of a result that carries strings.
pub open spec fn lines_result_view(r: Result<Vec<String>, VfsError>) -> Result<Seq<Seq<char>>, VfsError> {
    match r {
        Ok(l) => Ok(strings_view(l@)),
        Err(e) => Err(e),
    }
}

pub open spec fn pair_result_view(r: Result<(String, String), VfsError>) -> Result<(Seq<char>, Seq<char>), VfsError> {
    match r {
        Ok(p) => Ok((p.0@, p.1@)),
        Err(e) => Err(e),
    }
}

// ---------------------------------------------------------------------------
// Lemmas about the abstract tree.

/// The view of a node, one level deep.
pub open spec fn shallow_view(n: Node) -> NodeView {
    match n {
        Node::File { name, content } => NodeView::File { name: name@, content: content@ },
        Node::Dir { name, children } => NodeView::Dir { name: name@, children: nodes_view(children@) },
    }
}

pub proof fn lemma_dir_view(n: Node)
    ensures
        n@ == shallow_view(n),
{
    if let Node::Dir { name, children } = n {
        assert(node_view(n)->Dir_children =~= nodes_view(children@));
    }
}

pub proof fn lemma_first_named_unique(children: Seq<NodeView>, name: Seq<char>, i: int)
    requires
        is_first_named(children, name, i),
    ensures
        first_named(children, name) == Some(i),
{
    let k = choose|k: int| is_first_named(children, name, k);
    assert(is_first_named(children, name, k));
    if k < i {
        assert(name_of(children[k]) != name);
    }
    if i < k {
        assert(name_of(children[i]) != name);
    }
}

pub proof fn lemma_first_named_none(children: Seq<NodeView>, name: Seq<char>)
    requires
        forall|j: int| 0 <= j < children.len() ==> name_of(#[trigger] children[j]) != name,
    ensures
        first_named(children, name) is None,
{
    if exists|i: int| is_first_named(children, name, i) {
        let k = choose|k: int| is_first_named(children, name, k);
        assert(name_of(children[k]) != name);
    }
}

/// Only the names of the children decide `first_named`.
pub proof fn lemma_first_named_same_names(a: Seq<NodeView>, b: Seq<NodeView>, name: Seq<char>)
    requires
        a.len() == b.len(),
        forall|j: int| 0 <= j < a.len() ==> name_of(#[trigger] a[j]) == name_of(b[j]),
    ensures
        first_named(a, name) == first_named(b, name),
{
    match first_named(a, name) {
        Some(i) => {
            assert(is_first_named(a, name, i));
            assert(forall|j: int| 0 <= j < i ==> name_of(#[trigger] b[j]) != name) by {
                assert forall|j: int| 0 <= j < i implies name_of(#[trigger] b[j]) != name by {
                    assert(name_of(a[j]) != name);
                }
            }
            assert(is_first_named(b, name, i));
            lemma_first_named_unique(b, name, i);
        },
        None => {
            assert forall|j: int| 0 <= j < b.len() implies name_of(#[trigger] b[j]) != name by {
                if name_of(b[j]) == name {
                    lemma_first_exists(a, name, j);
                }
            }
            lemma_first_named_none(b, name);
        },
    }
}

/// A node called `name` at position `j` means there is a first one.
pub proof fn lemma_first_exists(children: Seq<NodeView>, name: Seq<char>, j: int)
    requires
        0 <= j < children.len(),
        name_of(children[j]) == name,
    ensures
        first_named(children, name) is Some,
    decreases j,
{
    if exists|k: int| 0 <= k < j && name_of(#[trigger] children[k]) == name {
        let k = choose|k: int| 0 <= k < j && name_of(#[trigger] children[k]) == name;
        lemma_first_exists(children, name, k);
    } else {
        assert(is_first_named(children, name, j));
    }
}

/// Replacing a folder's children keeps the node's name.
pub proof fn lemma_with_dir_name(root: NodeView, path: Seq<Seq<char>>, x: Seq<NodeView>)
    ensures
        name_of(with_dir(root, path, x)) == name_of(root),
        with_dir(root, path, x) is Dir <==> root is Dir,
{
}

/// After replacing the children at `path`, the folder at `path` holds them.
pub proof fn lemma_dir_at_with_dir(root: NodeView, path: Seq<Seq<char>>, x: Seq<NodeView>)
    requires
        dir_at(root, path) is Some,
    ensures
        dir_at(with_dir(root, path, x), path) == Some(x),
    decreases path.len(),
{
    if path.len() > 0 {
        let children = root->Dir_children;
        let i = first_named(children, path[0])->0;
        let updated = children.update(i, with_dir(children[i], path.drop_first(), x));
        lemma_with_dir_name(children[i], path.drop_first(), x);
        lemma_first_named_same_names(updated, children, path[0]);
        lemma_dir_at_with_dir(children[i], path.drop_first(), x);
    }
}

/// The folder reached in a tree without repeated names has children of
/// distinct names, each again such a tree.
pub proof fn lemma_dir_at_distinct(root: NodeView, path: Seq<Seq<char>>)
    requires
        names_distinct(root),
        dir_at(root, path) is Some,
    ensures
        distinct_names(dir_at(root, path)->0),
        forall|i: int|
            0 <= i < dir_at(root, path)->0.len() ==> names_distinct(
                #[trigger] dir_at(root, path)->0[i],
            ),
    decreases path.len(),
{
    if path.len() > 0 {
        let children = root->Dir_children;
        let i = first_named(children, path[0])->0;
        assert(names_distinct(children[i]));
        lemma_dir_at_distinct(children[i], path.drop_first());
    }
}

/// Replacing the children of a folder by children of distinct names, each a
/// tree without repeated names, keeps the whole tree without repeated names.
pub proof fn lemma_with_dir_distinct(root: NodeView, path: Seq<Seq<char>>, x: Seq<NodeView>)
    requires
        names_distinct(root),
        dir_at(root, path) is Some,
        distinct_names(x),
        forall|i: int| 0 <= i < x.len() ==> names_distinct(#[trigger] x[i]),
    ensures
        names_distinct(with_dir(root, path, x)),
    decreases path.len(),
{
    if path.len() > 0 {
        let children = root->Dir_children;
        let i = first_named(children, path[0])->0;
        let y = with_dir(children[i], path.drop_first(), x);
        let updated = children.update(i, y);
        assert(names_distinct(children[i]));
        lemma_with_dir_distinct(children[i], path.drop_first(), x);
        lemma_with_dir_name(children[i], path.drop_first(), x);
        assert(distinct_names(updated)) by {
            assert forall|a: int, b: int|
                0 <= a < updated.len() && 0 <= b < updated.len() && a != b implies name_of(
                #[trigger] updated[a],
            ) != name_of(#[trigger] updated[b]) by {
                assert(name_of(updated[a]) == name_of(children[a]));
                assert(name_of(updated[b]) == name_of(children[b]));
            }
        }
        assert forall|k: int| 0 <= k < updated.len() implies names_distinct(#[trigger] updated[k]) by {
            if k != i {
                assert(updated[k] == children[k]);
            }
        }
    }
}

/// A folder's children gain a new node whose name none of them has: the
/// names stay distinct.
pub proof fn lemma_push_distinct(here: Seq<NodeView>, node: NodeView)
    requires
        distinct_names(here),
        forall|i: int| 0 <= i < here.len() ==> names_distinct(#[trigger] here[i]),
        first_named(here, name_of(node)) is None,
        names_distinct(node),
    ensures
        distinct_names(here.push(node)),
        forall|i: int| 0 <= i < here.push(node).len() ==> names_distinct(#[trigger] here.push(node)[i]),
{
    let x = here.push(node);
    assert forall|j: int| 0 <= j < here.len() implies name_of(#[trigger] here[j]) != name_of(node) by {
        if name_of(here[j]) == name_of(node) {
            lemma_first_exists(here, name_of(node), j);
        }
    }
    assert forall|a: int, b: int|
        0 <= a < x.len() && 0 <= b < x.len() && a != b implies name_of(#[trigger] x[a]) != name_of(
        #[trigger] x[b],
    ) by {
        if a < here.len() && b < here.len() {
            assert(x[a] == here[a] && x[b] == here[b]);
        } else if a < here.len() {
            assert(x[a] == here[a]);
        } else {
            assert(x[b] == here[b]);
        }
    }
    assert forall|k: int| 0 <= k < x.len() implies names_distinct(#[trigger] x[k]) by {
        if k < here.len() {
            assert(x[k] == here[k]);
        }
    }
}

/// A file's content changes in place: the names stay distinct.
pub proof fn lemma_set_content_distinct(here: Seq<NodeView>, i: int, content: Seq<char>)
    requires
        0 <= i < here.len(),
        distinct_names(here),
        forall|k: int| 0 <= k < here.len() ==> names_distinct(#[trigger] here[k]),
    ensures
        ({
            let x = here.update(i, NodeView::File { name: name_of(here[i]), content });
            &&& distinct_names(x)
            &&& forall|k: int| 0 <= k < x.len() ==> names_distinct(#[trigger] x[k])
        }),
{
    let x = here.update(i, NodeView::File { name: name_of(here[i]), content });
    assert forall|a: int, b: int|
        0 <= a < x.len() && 0 <= b < x.len() && a != b implies name_of(#[trigger] x[a]) != name_of(
        #[trigger] x[b],
    ) by {
        assert(name_of(x[a]) == name_of(here[a]));
        assert(name_of(x[b]) == name_of(here[b]));
    }
    assert forall|k: int| 0 <= k < x.len() implies names_distinct(#[trigger] x[k]) by {
        if k != i {
            assert(x[k] == here[k]);
        }
    }
}

/// `cre` keeps the state well formed.
proof fn lemma_cre_wf(v: VfsView, name: Seq<char>, is_dir: bool)
    requires
        v.wf(),
    ensures
        cre_spec(v, name, is_dir).0.wf(),
{
    if cre_spec(v, name, is_dir).1 is Ok {
        let x = v.here().push(new_node(name, is_dir));
        lemma_dir_at_distinct(v.root, v.cwd);
        assert(distinct_names(Seq::<NodeView>::empty()));
        lemma_push_distinct(v.here(), new_node(name, is_dir));
        lemma_with_dir_distinct(v.root, v.cwd, x);
        lemma_dir_at_with_dir(v.root, v.cwd, x);
    }
}

/// `write_file` keeps the state well formed.
proof fn lemma_write_file_wf(v: VfsView, name: Seq<char>, content: Seq<char>)
    requires
        v.wf(),
    ensures
        write_file_spec(v, name, content).0.wf(),
{
    if write_file_spec(v, name, content).1 is Ok {
        let here = v.here();
        let i = first_named(here, name)->0;
        let x = here.update(i, NodeView::File { name: name_of(here[i]), content });
        lemma_dir_at_distinct(v.root, v.cwd);
        lemma_set_content_distinct(here, i, content);
        lemma_with_dir_distinct(v.root, v.cwd, x);
        lemma_dir_at_with_dir(v.root, v.cwd, x);
    }
}

/// The folder at a path's prefix exists when the folder at the path does.
pub proof fn lemma_dir_at_prefix(root: NodeView, path: Seq<Seq<char>>, n: int)
    requires
        dir_at(root, path) is Some,
        0 <= n <= path.len(),
    ensures
        dir_at(root, path.subrange(0, n)) is Some,
    decreases path.len(),
{
    if path.len() > 0 && n > 0 {
        let children = root->Dir_children;
        let i = first_named(children, path[0])->0;
        lemma_dir_at_prefix(children[i], path.drop_first(), n - 1);
        assert(path.subrange(0, n).drop_first() =~= path.drop_first().subrange(0, n - 1));
    }
}

/// Following one more existing folder name extends the path.
pub proof fn lemma_dir_at_push(root: NodeView, path: Seq<Seq<char>>, name: Seq<char>)
    requires
        dir_at(root, path) is Some,
    ensures
        dir_at(root, path.push(name)) == (match first_named(dir_at(root, path)->0, name) {
            Some(i) => dir_at(dir_at(root, path)->0[i], seq![]),
            None => None::<Seq<NodeView>>,
        }),
    decreases path.len(),
{
    if path.len() == 0 {
        assert(path.push(name).drop_first() =~= Seq::<Seq<char>>::empty());
        assert(path.push(name)[0] == name);
    } else {
        let children = root->Dir_children;
        let i = first_named(children, path[0])->0;
        assert(path.push(name).drop_first() =~= path.drop_first().push(name));
        assert(path.push(name)[0] == path[0]);
        lemma_dir_at_push(children[i], path.drop_first(), name);
    }
}

// ---------------------------------------------------------------------------
// Executable code.

impl Node {
    fn name(&self) -> (r: &String)
        ensures
            r@ == name_of(self@),
    {
        proof {
            lemma_dir_view(*self);
        }
        match self {
            Node::File { name, .. } => name,
            Node::Dir { name, .. } => name,
        }
    }

    fn is_dir(&self) -> (r: bool)
        ensures
            r == (self@ is Dir),
    {
        proof {
            lemma_dir_view(*self);
        }
        match self {
            Node::File { .. } => false,
            Node::Dir { .. } => true,
        }
    }
}

/// The position of the first child called `name`.
fn find_child(children: &Vec<Node>, name: &String) -> (r: Option<usize>)
    ensures
        r matches Some(i) ==> first_named(nodes_view(children@), name@) == Some(i as int),
        r is None ==> first_named(nodes_view(children@), name@) is None,
{
    let ghost cv = nodes_view(children@);
    let mut i: usize = 0;
    while i < children.len()
        invariant
            cv == nodes_view(children@),
            i <= children.len(),
            forall|j: int| 0 <= j < i ==> name_of(#[trigger] cv[j]) != name@,
        decreases children.len() - i,
    {
        if *children[i].name() == *name {
            proof {
                lemma_first_named_unique(cv, name@, i as int);
            }
            return Some(i);
        }
        i = i + 1;
    }
    proof {
        lemma_first_named_none(cv, name@);
    }
    None
}

/// The children of the folder reached from `node` by `path[depth..]`.
fn find_dir<'a>(node: &'a Node, path: &Vec<String>, depth: usize) -> (r: Option<&'a Vec<Node>>)
    requires
        depth <= path.len(),
    ensures
        r matches Some(c) ==> dir_at(node@, strings_view(path@).skip(depth as int)) == Some(
            nodes_view(c@),
        ),
        r is None ==> dir_at(node@, strings_view(path@).skip(depth as int)) is None,
    decreases path.len() - depth,
{
    proof {
        lemma_dir_view(*node);
    }
    let ghost p = strings_view(path@).skip(depth as int);
    match node {
        Node::File { .. } => None,
        Node::Dir { children, .. } => {
            if depth == path.len() {
                Some(children)
            } else {
                assert(p[0] == path@[depth as int]@);
                assert(p.drop_first() =~= strings_view(path@).skip(depth + 1));
                match find_child(children, &path[depth]) {
                    None => None,
                    Some(i) => find_dir(&children[i], path, depth + 1),
                }
            }
        },
    }
}

/// Appends `child` to the folder reached from `node` by `path[depth..]`.
fn push_child_at(node: &mut Node, path: &Vec<String>, depth: usize, child: Node)
    requires
        depth <= path.len(),
        dir_at(old(node)@, strings_view(path@).skip(depth as int)) is Some,
    ensures
        final(node)@ == with_dir(
            old(node)@,
            strings_view(path@).skip(depth as int),
            dir_at(old(node)@, strings_view(path@).skip(depth as int))->0.push(child@),
        ),
    decreases path.len() - depth,
{
    proof {
        lemma_dir_view(*node);
    }
    let ghost p = strings_view(path@).skip(depth as int);
    match node {
        Node::Dir { children, name } => {
            let ghost old_children = children@;
            if depth == path.len() {
                children.push(child);
                assert(nodes_view(children@) =~= nodes_view(old_children).push(child@));
            } else {
                assert(p[0] == path@[depth as int]@);
                assert(p.drop_first() =~= strings_view(path@).skip(depth + 1));
                match find_child(children, &path[depth]) {
                    Some(i) => {
                        push_child_at(&mut children[i], path, depth + 1, child);
                        assert(nodes_view(children@) =~= nodes_view(old_children).update(
                            i as int,
                            children@[i as int]@,
                        ));
                    },
                    None => {},
                }
            }
            proof {
                lemma_dir_view(Node::Dir { name: *name, children: *children });
            }
        },
        Node::File { .. } => {},
    }
}

/// Replaces the content of the file at position `idx` of the folder reached
/// from `node` by `path[depth..]`.
fn set_content_at(node: &mut Node, path: &Vec<String>, depth: usize, idx: usize, content: String)
    requires
        depth <= path.len(),
        dir_at(old(node)@, strings_view(path@).skip(depth as int)) is Some,
        idx < dir_at(old(node)@, strings_view(path@).skip(depth as int))->0.len(),
        dir_at(old(node)@, strings_view(path@).skip(depth as int))->0[idx as int] is File,
    ensures
        final(node)@ == with_dir(
            old(node)@,
            strings_view(path@).skip(depth as int),
            ({
                let here = dir_at(old(node)@, strings_view(path@).skip(depth as int))->0;
                here.update(
                    idx as int,
                    NodeView::File { name: name_of(here[idx as int]), content: content@ },
                )
            }),
        ),
    decreases path.len() - depth,
{
    proof {
        lemma_dir_view(*node);
    }
    let ghost p = strings_view(path@).skip(depth as int);
    match node {
        Node::Dir { children, name } => {
            let ghost old_children = children@;
            if depth == path.len() {
                proof {
                    lemma_dir_view(children@[idx as int]);
                }
                let c = &mut children[idx];
                match c {
                    Node::File { content: body, name: file_name } => {
                        *body = content;
                        proof {
                            lemma_dir_view(Node::File { name: *file_name, content: *body });
                        }
                    },
                    Node::Dir { .. } => {},
                }
                assert(nodes_view(children@) =~= nodes_view(old_children).update(
                    idx as int,
                    children@[idx as int]@,
                ));
            } else {
                assert(p[0] == path@[depth as int]@);
                assert(p.drop_first() =~= strings_view(path@).skip(depth + 1));
                match find_child(children, &path[depth]) {
                    Some(i) => {
                        set_content_at(&mut children[i], path, depth + 1, idx, content);
                        assert(nodes_view(children@) =~= nodes_view(old_children).update(
                            i as int,
                            children@[i as int]@,
                        ));
                    },
                    None => {},
                }
            }
            proof {
                lemma_dir_view(Node::Dir { name: *name, children: *children });
            }
        },
        Node::File { .. } => {},
    }
}

impl Vfs {
    /// A filesystem holding only the empty root folder `/`, with the root as
    /// current directory.
    pub fn new() -> (r: Self)
        ensures
            r@ == (VfsView { root: NodeView::Dir { name: "/"@, children: seq![] }, cwd: seq![] }),
            r@.wf(),
    {
        let r = Vfs { root: Node::Dir { name: "/".to_owned(), children: Vec::new() }, cwd: Vec::new() };
        proof {
            lemma_dir_view(r.root);
            assert(nodes_view(Seq::<Node>::empty()) =~= Seq::<NodeView>::empty());
            assert(strings_view(Seq::<String>::empty()) =~= Seq::<Seq<char>>::empty());
        }
        r
    }

    /// The current directory as text: `/` for the root, else `/a/b`.
    pub fn cwd_path(&self) -> (r: String)
        ensures
            r@ == cwd_path_spec(self@.cwd),
    {
        if self.cwd.len() == 0 {
            return "/".to_owned();
        }
        let mut s = String::new();
        let mut i: usize = 0;
        while i < self.cwd.len()
            invariant
                i <= self.cwd.len(),
                s@ == path_text(strings_view(self.cwd@).subrange(0, i as int)),
            decreases self.cwd.len() - i,
        {
            let ghost before = strings_view(self.cwd@).subrange(0, i as int);
            s.append("/");
            s.append(self.cwd[i].as_str());
            proof {
                let after = strings_view(self.cwd@).subrange(0, i + 1);
                assert(after.drop_last() =~= before);
            }
            i = i + 1;
        }
        proof {
            assert(strings_view(self.cwd@).subrange(0, i as int) =~= strings_view(self.cwd@));
        }
        s
    }

    /// `chd`: change directory to a child folder, to the parent (`..`) or to
    /// the root (`/`).
    pub fn chd(&mut self, target: &str) -> (r: Result<(), VfsError>)
        requires
            old(self)@.wf(),
        ensures
            (final(self)@, r) == chd_spec(old(self)@, target@),
            final(self)@.wf(),
    {
        let ghost v = self@;
        if str_eq(target, "/") {
            self.cwd.clear();
            proof {
                assert(strings_view(self.cwd@) =~= Seq::<Seq<char>>::empty());
                lemma_dir_at_prefix(v.root, v.cwd, 0);
                assert(v.cwd.subrange(0, 0) =~= Seq::<Seq<char>>::empty());
            }
            return Ok(());
        }
        if str_eq(target, "..") {
            let ghost old_cwd = self.cwd@;
            self.cwd.pop();
            proof {
                if old_cwd.len() > 0 {
                    assert(strings_view(self.cwd@) =~= v.cwd.drop_last());
                    lemma_dir_at_prefix(v.root, v.cwd, v.cwd.len() - 1);
                    assert(v.cwd.subrange(0, v.cwd.len() - 1) =~= v.cwd.drop_last());
                }
            }
            return Ok(());
        }
        let t = target.to_owned();
        let found = match find_dir(&self.root, &self.cwd, 0) {
            None => {
                proof {
                    assert(strings_view(self.cwd@).skip(0) =~= strings_view(self.cwd@));
                }
                return Err(VfsError::NotADirectory);
            },
            Some(children) => {
                proof {
                    assert(strings_view(self.cwd@).skip(0) =~= strings_view(self.cwd@));
                }
                match find_child(children, &t) {
                    None => None,
                    Some(i) => Some(children[i].is_dir()),
                }
            },
        };
        match found {
            Some(true) => {
                self.cwd.push(t);
                proof {
                    assert(strings_view(self.cwd@) =~= v.cwd.push(target@));
                    lemma_dir_at_push(v.root, v.cwd, target@);
                }
                Ok(())
            },
            Some(false) => Err(VfsError::NotADirectory),
            None => Err(VfsError::NotFound),
        }
    }

    /// `cre`: create an empty file, or an empty folder when `is_dir`, in the
    /// current directory.
    pub fn cre(&mut self, name: &str, is_dir: bool) -> (r: Result<(), VfsError>)
        requires
            old(self)@.wf(),
        ensures
            (final(self)@, r) == cre_spec(old(self)@, name@, is_dir),
            final(self)@.wf(),
    {
        let ghost v = self@;
        proof {
            assert(strings_view(self.cwd@).skip(0) =~= strings_view(self.cwd@));
        }
        let n = name.to_owned();
        let exists = match find_dir(&self.root, &self.cwd, 0) {
            None => {
                return Err(VfsError::NotADirectory);
            },
            Some(children) => find_child(children, &n).is_some(),
        };
        if exists {
            return Err(VfsError::AlreadyExists);
        }
        let node = if is_dir {
            Node::Dir { name: n, children: Vec::new() }
        } else {
            Node::File { name: n, content: String::new() }
        };
        proof {
            lemma_dir_view(node);
            assert(nodes_view(Seq::<Node>::empty()) =~= Seq::<NodeView>::empty());
            assert(node@ == new_node(name@, is_dir));
        }
        push_child_at(&mut self.root, &self.cwd, 0, node);
        proof {
            lemma_cre_wf(v, name@, is_dir);
        }
        Ok(())
    }

    /// `con`: the lines of the named file, or the names in the named folder.
    pub fn con(&mut self, name: &str) -> (r: Result<Vec<String>, VfsError>)
        requires
            old(self)@.wf(),
        ensures
            *final(self) == *old(self),
            lines_result_view(r) == con_spec(old(self)@, name@),
    {
        proof {
            assert(strings_view(self.cwd@).skip(0) =~= strings_view(self.cwd@));
        }
        let n = name.to_owned();
        match find_dir(&self.root, &self.cwd, 0) {
            None => Err(VfsError::NotADirectory),
            Some(children) => match find_child(children, &n) {
                None => Err(VfsError::NotFound),
                Some(i) => {
                    let c = &children[i];
                    proof {
                        lemma_dir_view(*c);
                    }
                    match c {
                        Node::File { content, .. } => Ok(split_lines(content.as_str())),
                        Node::Dir { children: inner, .. } => Ok(child_names(inner)),
                    }
                },
            },
        }
    }

    /// `con` with no argument: the names in the current directory.
    pub fn con_here(&mut self) -> (r: Vec<String>)
        requires
            old(self)@.wf(),
        ensures
            *final(self) == *old(self),
            strings_view(r@) == con_here_spec(old(self)@),
    {
        proof {
            assert(strings_view(self.cwd@).skip(0) =~= strings_view(self.cwd@));
        }
        match find_dir(&self.root, &self.cwd, 0) {
            Some(children) => child_names(children),
            None => {
                assert(strings_view(Seq::<String>::empty()) =~= Seq::<Seq<char>>::empty());
                Vec::new()
            },
        }
    }

    /// `info`: whether the named node is a file or a folder, with its size in
    /// bytes or its number of items.
    pub fn info(&mut self, name: &str) -> (r: Result<(String, String), VfsError>)
        requires
            old(self)@.wf(),
        ensures
            *final(self) == *old(self),
            pair_result_view(r) == info_spec(old(self)@, name@),
    {
        proof {
            assert(strings_view(self.cwd@).skip(0) =~= strings_view(self.cwd@));
        }
        let n = name.to_owned();
        match find_dir(&self.root, &self.cwd, 0) {
            None => Err(VfsError::NotADirectory),
            Some(children) => match find_child(children, &n) {
                None => Err(VfsError::NotFound),
                Some(i) => {
                    let c = &children[i];
                    proof {
                        lemma_dir_view(*c);
                    }
                    match c {
                        Node::File { content, .. } => {
                            let bytes = content.as_str().len();
                            let mut detail = decimal_string(bytes as u64);
                            detail.append(" bytes");
                            Ok(("file".to_owned(), detail))
                        },
                        Node::Dir { children: inner, .. } => {
                            let mut detail = decimal_string(inner.len() as u64);
                            detail.append(" items");
                            Ok(("directory".to_owned(), detail))
                        },
                    }
                },
            },
        }
    }

    /// Replaces the content of an existing file in the current directory.
    pub fn write_file(&mut self, name: &str, content: &str) -> (r: Result<(), VfsError>)
        requires
            old(self)@.wf(),
        ensures
            (final(self)@, r) == write_file_spec(old(self)@, name@, content@),
            final(self)@.wf(),
    {
        let ghost v = self@;
        proof {
            assert(strings_view(self.cwd@).skip(0) =~= strings_view(self.cwd@));
        }
        let n = name.to_owned();
        let found = match find_dir(&self.root, &self.cwd, 0) {
            None => {
                return Err(VfsError::NotADirectory);
            },
            Some(children) => match find_child(children, &n) {
                None => None,
                Some(i) => Some((i, children[i].is_dir())),
            },
        };
        match found {
            None => Err(VfsError::NotFound),
            Some((_, true)) => Err(VfsError::IsADirectory),
            Some((i, false)) => {
                set_content_at(&mut self.root, &self.cwd, 0, i, content.to_owned());
                proof {
                    lemma_write_file_wf(v, name@, content@);
                }
                Ok(())
            },
        }
    }
}

/// The names of `children`, in order.
fn child_names(children: &Vec<Node>) -> (r: Vec<String>)
    ensures
        strings_view(r@) == names(nodes_view(children@)),
{
    let mut out: Vec<String> = Vec::new();
    let mut i: usize = 0;
    while i < children.len()
        invariant
            i <= children.len(),
            strings_view(out@) =~= names(nodes_view(children@)).subrange(0, i as int),
        decreases children.len() - i,
    {
        let ghost before = out@;
        out.push(children[i].name().clone());
        assert(strings_view(out@) =~= strings_view(before).push(name_of(nodes_view(children@)[i as int])));
        i = i + 1;
    }
    assert(names(nodes_view(children@)).subrange(0, i as int) =~= names(nodes_view(children@)));
    out
}

// ---------------------------------------------------------------------------
// Laws of the filesystem.

/// A name created with `cre` is listed by `con` in the same directory, after
/// the names that were there before.
pub proof fn law_cre_then_listed(v: VfsView, name: Seq<char>, is_dir: bool)
    requires
        v.wf(),
        cre_spec(v, name, is_dir).1 is Ok,
    ensures
        con_here_spec(cre_spec(v, name, is_dir).0) == con_here_spec(v).push(name),
{
    let x = v.here().push(new_node(name, is_dir));
    lemma_dir_at_with_dir(v.root, v.cwd, x);
    assert(names(x) =~= names(v.here()).push(name));
}

/// A second `cre` of the same name in the same directory is refused with
/// `AlreadyExists` and changes nothing.
pub proof fn law_cre_twice_refused(v: VfsView, name: Seq<char>, is_dir: bool, again_dir: bool)
    requires
        v.wf(),
        cre_spec(v, name, is_dir).1 is Ok,
    ensures
        cre_spec(cre_spec(v, name, is_dir).0, name, again_dir) == (
            cre_spec(v, name, is_dir).0,
            Err::<(), VfsError>(VfsError::AlreadyExists),
        ),
{
    let x = v.here().push(new_node(name, is_dir));
    lemma_dir_at_with_dir(v.root, v.cwd, x);
    lemma_first_exists(x, name, x.len() - 1);
}

/// What `write_file` stores in a file, `con` reads back as its lines.
pub proof fn law_write_then_con(v: VfsView, name: Seq<char>, content: Seq<char>)
    requires
        v.wf(),
        write_file_spec(v, name, content).1 is Ok,
    ensures
        con_spec(write_file_spec(v, name, content).0, name) == Ok::<Seq<Seq<char>>, VfsError>(
            lines(content),
        ),
{
    let here = v.here();
    let i = first_named(here, name)->0;
    let x = here.update(i, NodeView::File { name: name_of(here[i]), content });
    lemma_dir_at_with_dir(v.root, v.cwd, x);
    lemma_first_named_same_names(x, here, name);
}

/// Entering a folder with `chd` and leaving it with `chd ..` returns to the
/// same state.
pub proof fn law_chd_then_parent(v: VfsView, target: Seq<char>)
    requires
        v.wf(),
        target != "/"@,
        target != ".."@,
        chd_spec(v, target).1 is Ok,
    ensures
        chd_spec(chd_spec(v, target).0, ".."@) == (v, Ok::<(), VfsError>(())),
{
    reveal_strlit("/");
    reveal_strlit("..");
    assert(".."@ != "/"@) by {
        assert(".."@.len() != "/"@.len());
    }
    let after = chd_spec(v, target).0;
    assert(after.cwd == v.cwd.push(target));
    assert(after.cwd.drop_last() =~= v.cwd);
    assert(after.with_cwd(after.cwd.drop_last()) == v);
}

/// `chd /` always succeeds and makes the root the current directory, whose
/// path reads `/`.
pub proof fn law_chd_root(v: VfsView)
    requires
        v.wf(),
    ensures
        chd_spec(v, "/"@) == (v.with_cwd(seq![]), Ok::<(), VfsError>(())),
        cwd_path_spec(chd_spec(v, "/"@).0.cwd) == "/"@,
{
}

/// A folder made with `cre` can be entered with `chd`, and is empty there.
pub proof fn law_cre_folder_then_chd(v: VfsView, name: Seq<char>)
    requires
        v.wf(),
        name != "/"@,
        name != ".."@,
        cre_spec(v, name, true).1 is Ok,
    ensures
        chd_spec(cre_spec(v, name, true).0, name).1 == Ok::<(), VfsError>(()),
        chd_spec(cre_spec(v, name, true).0, name).0.cwd == v.cwd.push(name),
        con_here_spec(chd_spec(cre_spec(v, name, true).0, name).0) == Seq::<Seq<char>>::empty(),
{
    let x = v.here().push(new_node(name, true));
    let after = cre_spec(v, name, true).0;
    lemma_dir_at_with_dir(v.root, v.cwd, x);
    lemma_first_exists(x, name, x.len() - 1);
    let i = first_named(x, name)->0;
    assert(is_first_named(x, name, i));
    if i < x.len() - 1 {
        assert(x[i] == v.here()[i]);
        lemma_first_exists(v.here(), name, i);
    }
    assert(i == x.len() - 1);
    lemma_dir_at_push(after.root, after.cwd, name);
    assert(names(Seq::<NodeView>::empty()) =~= Seq::<Seq<char>>::empty());
}

/// The current directory stays reachable through every operation: `new`
/// establishes it and each of `chd`, `cre` and `write_file` keeps it.
pub proof fn law_wf_kept(v: VfsView, name: Seq<char>, content: Seq<char>, is_dir: bool)
    requires
        v.wf(),
    ensures
        chd_spec(v, name).0.wf(),
        cre_spec(v, name, is_dir).0.wf(),
        write_file_spec(v, name, content).0.wf(),
{
    match chd_spec(v, name).1 {
        Ok(_) => {
            if name == "/"@ {
                lemma_dir_at_prefix(v.root, v.cwd, 0);
                assert(v.cwd.subrange(0, 0) =~= Seq::<Seq<char>>::empty());
            } else if name == ".."@ {
                if v.cwd.len() > 0 {
                    lemma_dir_at_prefix(v.root, v.cwd, v.cwd.len() - 1);
                    assert(v.cwd.subrange(0, v.cwd.len() - 1) =~= v.cwd.drop_last());
                }
            } else {
                lemma_dir_at_push(v.root, v.cwd, name);
            }
        },
        Err(_) => {},
    }
    lemma_cre_wf(v, name, is_dir);
    lemma_write_file_wf(v, name, content);
}

/// In every folder of a reachable filesystem the names are distinct, so a
/// name lookup finds exactly the one node of that name, if any.
pub proof fn law_names_distinct_everywhere(v: VfsView, path: Seq<Seq<char>>, name: Seq<char>)
    requires
        v.wf(),
        dir_at(v.root, path) is Some,
    ensures
        distinct_names(dir_at(v.root, path)->0),
        forall|i: int|
            0 <= i < dir_at(v.root, path)->0.len() && name_of(#[trigger] dir_at(v.root, path)->0[i])
                == name ==> first_named(dir_at(v.root, path)->0, name) == Some(i),
{
    lemma_dir_at_distinct(v.root, path);
    let ch = dir_at(v.root, path)->0;
    assert forall|i: int| 0 <= i < ch.len() && name_of(#[trigger] ch[i]) == name implies first_named(
        ch,
        name,
    ) == Some(i) by {
        assert forall|j: int| 0 <= j < i implies name_of(#[trigger] ch[j]) != name by {
            assert(name_of(ch[j]) != name_of(ch[i]));
        }
        assert(is_first_named(ch, name, i));
        lemma_first_named_unique(ch, name, i);
    }
}

} // verus!
