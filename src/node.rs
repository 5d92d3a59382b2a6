//! The tree: an ordered, rooted tree of labelled nodes, each owning its children.
use vstd::prelude::*;

verus! {

/// A value that can be written as the label of a node.
pub trait NodeLabel {
    /// The text of the label.
    spec fn label_view(&self) -> Seq<char>;

    /// The label as a string.
    fn to_label(&self) -> (r: String)
        ensures
            r@ == self.label_view(),
    ;
}

impl NodeLabel for String {
    open spec fn label_view(&self) -> Seq<char> {
        self@
    }

    fn to_label(&self) -> (r: String) {
        self.clone()
    }
}

/// A node of the tree; any node can be the root of a tree when written.
#[derive(Debug)]
pub struct TreeNode<T> {
    /// The value shown as the node's label.
    pub data: T,
    /// The node's children, in display order.
    pub children: Vec<TreeNode<T>>,
}

/// A tree whose labels are strings.
pub type StringTreeNode = TreeNode<String>;

impl<T> TreeNode<T> {
    /// The node is a leaf holding `data`.
    pub open spec fn is_leaf_of(self, data: T) -> bool {
        self.data == data && self.children@.len() == 0
    }

    /// The node's children are leaves holding the values of `values`, in order.
    pub open spec fn has_leaves(self, values: Seq<T>) -> bool {
        &&& self.children@.len() == values.len()
        &&& forall|i: int|
            0 <= i < values.len() ==> (#[trigger] self.children@[i]).is_leaf_of(values[i])
    }

    /// Construct a new tree node with the provided data value.
    pub fn new(data: T) -> (r: Self)
        ensures
            r.is_leaf_of(data),
    {
        TreeNode { data, children: Vec::new() }
    }

    /// Construct a new tree node with the provided data value and a leaf child for each of
    /// the given values.
    pub fn with_children(data: T, children: Vec<T>) -> (r: Self)
        ensures
            r.data == data,
            r.has_leaves(children@),
    {
        let mut r = Self::new(data);
        r.extend(children);
        assert forall|i: int| 0 <= i < children@.len() implies (#[trigger] r.children@[i]).is_leaf_of(
            children@[i],
        ) by {
            assert(r.children@[0 + i] == r.children@[i]);
        }
        r
    }

    /// Construct a new tree node with the provided data value and pre-constructed child nodes.
    pub fn with_child_nodes(data: T, children: Vec<TreeNode<T>>) -> (r: Self)
        ensures
            r.data == data,
            r.children@ == children@,
    {
        TreeNode { data, children }
    }

    /// The data item of this node.
    pub fn data(&self) -> (r: &T)
        ensures
            *r == self.data,
    {
        &self.data
    }

    /// Returns `true` if this node has child nodes, else `false`.
    pub fn has_children(&self) -> (r: bool)
        ensures
            r == (self.children@.len() > 0),
    {
        self.children.len() > 0
    }

    /// The child nodes, in display order.
    pub fn children(&self) -> (r: &[TreeNode<T>])
        ensures
            r@ == self.children@,
    {
        self.children.as_slice()
    }

    /// Append a new leaf holding `data` to the children.
    pub fn push(&mut self, data: T)
        ensures
            final(self).data == old(self).data,
            final(self).children@.len() == old(self).children@.len() + 1,
            final(self).children@.drop_last() == old(self).children@,
            final(self).children@.last().is_leaf_of(data),
    {
        self.push_node(TreeNode { data, children: Vec::new() })
    }

    /// Append a pre-constructed node to the children.
    pub fn push_node(&mut self, child: TreeNode<T>)
        ensures
            final(self).data == old(self).data,
            final(self).children@ == old(self).children@.push(child),
    {
        self.children.push(child)
    }

    /// Append a leaf child for each of the given values, in order.
    pub fn extend(&mut self, children: Vec<T>)
        ensures
            final(self).data == old(self).data,
            final(self).children@.len() == old(self).children@.len()
                + children@.len(),
            final(self).children@.subrange(0, old(self).children@.len() as int)
                == old(self).children@,
            forall|i: int|
                0 <= i < children@.len() ==> (#[trigger] final(self).children@[old(
                    self,
                ).children@.len() + i]).is_leaf_of(children@[i]),
    {
        let mut values = children;
        let ghost start = self.children@;
        let ghost given = values@;
        while values.len() > 0
            invariant
                self.data == old(self).data,
                start == old(self).children@,
                given == children@,
                self.children@.len() + values@.len() == start.len() + given.len(),
                self.children@.len() >= start.len(),
                self.children@.subrange(0, start.len() as int) == start,
                forall|i: int|
                    0 <= i < self.children@.len() - start.len() ==> (#[trigger] self.children@[start.len()
                        + i]).is_leaf_of(given[i]),
                values@ == given.subrange(self.children@.len() - start.len(), given.len() as int),
            decreases values.len(),
        {
            let v = values.remove(0);
            let ghost before = self.children@;
            self.push(v);
            assert(self.children@.subrange(0, start.len() as int) =~= before.subrange(
                0,
                start.len() as int,
            ));
            assert forall|i: int|
                0 <= i < self.children@.len() - start.len() implies (#[trigger] self.children@[start.len()
                    + i]).is_leaf_of(given[i]) by {
                if i < before.len() - start.len() {
                    assert(self.children@[start.len() + i] == before[start.len() + i]);
                }
            }
            assert(values@ =~= given.subrange(self.children@.len() - start.len(), given.len() as int));
        }
    }
}

impl<T> TreeNode<T> {
    /// The number of nodes of the subtree rooted here, itself included.
    pub open spec fn node_count(self) -> nat
        decreases self, 1nat, 0nat,
    {
        1 + self.children_node_count(self.children@.len())
    }

    /// The number of nodes in the subtrees of the first `k` children.
    pub open spec fn children_node_count(self, k: nat) -> nat
        decreases self, 0nat, k,
    {
        if k == 0 || k > self.children@.len() {
            0
        } else {
            self.children_node_count((k - 1) as nat) + self.children@[k - 1].node_count()
        }
    }
}

impl<T: NodeLabel> TreeNode<T> {
    /// The label of this node.
    pub fn label(&self) -> (r: String)
        ensures
            r@ == self.data.label_view(),
    {
        self.data.to_label()
    }
}

impl<T> From<T> for TreeNode<T> {
    /// A leaf holding `v`.
    fn from(v: T) -> (r: Self)
        ensures
            r.is_leaf_of(v),
    {
        Self::new(v)
    }
}

impl<T> vstd::std_specs::convert::FromSpecImpl<T> for TreeNode<T> {
    /// A node's children are a `Vec`, which no spec expression builds; `from` states its
    /// result in its own `ensures` instead.
    open spec fn obeys_from_spec() -> bool {
        false
    }

    open spec fn from_spec(v: T) -> Self {
        TreeNode { data: v, children: vstd::pervasive::arbitrary() }
    }
}

impl From<&str> for TreeNode<String> {
    /// A leaf labelled with a copy of `v`.
    fn from(v: &str) -> (r: Self)
        ensures
            r.data@ == v@,
            r.children@.len() == 0,
    {
        Self::new(v.to_owned())
    }
}

impl vstd::std_specs::convert::FromSpecImpl<&str> for TreeNode<String> {
    open spec fn obeys_from_spec() -> bool {
        false
    }

    open spec fn from_spec(v: &str) -> Self {
        TreeNode { data: vstd::pervasive::arbitrary(), children: vstd::pervasive::arbitrary() }
    }
}

impl<T: Clone> From<&T> for TreeNode<T> {
    /// A leaf holding a clone of `v`.
    fn from(v: &T) -> (r: Self)
        ensures
            cloned(*v, r.data),
            r.children@.len() == 0,
    {
        Self::new(v.clone())
    }
}

impl<T: Clone> vstd::std_specs::convert::FromSpecImpl<&T> for TreeNode<T> {
    open spec fn obeys_from_spec() -> bool {
        false
    }

    open spec fn from_spec(v: &T) -> Self {
        TreeNode { data: *v, children: vstd::pervasive::arbitrary() }
    }
}

} // verus!
