//! A tree whose nodes hold a value and own their children.

use vstd::prelude::*;

verus! {

/// A node of a tree: a value and the children, in the order in which they
/// were appended.
pub struct Node<T> {
    pub data: T,
    pub children: Vec<Node<T>>,
}

/// A tree, which may have a root.
pub struct Tree<T> {
    pub root: Option<Node<T>>,
}

impl<T: Clone> Tree<T> {
    /// The tree with the given root.
    pub fn new(root: Node<T>) -> (tree: Tree<T>)
        ensures
            tree.root == Some(root),
    {
        Tree { root: Some(root) }
    }

    /// The root of the tree, if it has one.
    pub fn get_root(&self) -> (root: Option<&Node<T>>)
        ensures
            match (root, self.root) {
                (Some(node), Some(own)) => *node == own,
                (None, None) => true,
                _ => false,
            },
    {
        self.root.as_ref()
    }
}

impl<T: Clone> Node<T> {
    /// A node with the given value and no child.
    pub fn new(data: T) -> (node: Node<T>)
        ensures
            node.data == data,
            node.children@.len() == 0,
    {
        Node { data, children: Vec::new() }
    }

    /// Makes `child` the last child of the node.
    pub fn append(&mut self, child: Node<T>)
        ensures
            final(self).data == old(self).data,
            final(self).children@ == old(self).children@.push(child),
    {
        self.children.push(child);
    }

    /// The children of the node.
    pub fn get_children(&self) -> (children: &Vec<Node<T>>)
        ensures
            children@ == self.children@,
    {
        &self.children
    }

    /// A clone of the value of the node.
    pub fn get_data(&self) -> (data: T)
        ensures
            cloned(self.data, data),
    {
        self.data.clone()
    }

    /// True when the node has no child.
    pub fn is_leaf(&self) -> (leaf: bool)
        ensures
            leaf == (self.children@.len() == 0),
    {
        self.children.is_empty()
    }

    /// Puts in place of the value of the node what `f` makes of a clone of
    /// it.
    pub fn map<F: Fn(T) -> T>(&mut self, f: F)
        requires
            forall|data: T| cloned(old(self).data, data) ==> call_requires(f, (data,)),
        ensures
            final(self).children == old(self).children,
            exists|data: T|
                cloned(old(self).data, data) && call_ensures(f, (data,), final(self).data),
    {
        let data = self.data.clone();
        assert(cloned(old(self).data, data));
        let ghost argument = data;
        let changed = f(data);
        self.data = changed;
        assert(cloned(old(self).data, argument) && call_ensures(f, (argument,), final(self).data));
    }
}

} // verus!
