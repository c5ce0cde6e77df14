use vstd::prelude::*;
use vstd::std_specs::cmp::PartialEqSpec;

verus! {

/// A tree node containing one unit of data, with any number of child nodes.
#[derive(PartialEq, Eq, Hash)]
pub struct TreeNode<T> {
    pub data: T,
    pub children: Vec<TreeNode<T>>,
}

impl<T> TreeNode<T> {
    /// Create a terminal tree node with `data` and no children.
    pub fn new(data: T) -> (node: TreeNode<T>)
        ensures
            node.data == data,
            node.children@ == Seq::<TreeNode<T>>::empty(),
    {
        TreeNode { data, children: Vec::new() }
    }

    /// Create a non-terminal tree node with `data` and prefilled children.
    pub fn new_with_children(data: T, children: Vec<TreeNode<T>>) -> (node: TreeNode<T>)
        ensures
            node.data == data,
            node.children == children,
    {
        TreeNode { data, children }
    }

    /// Whether this node has at least one direct child.
    pub fn has_children(&self) -> (r: bool)
        ensures
            r == (self.children@.len() > 0),
    {
        self.children.len() > 0
    }

    /// Returns the direct number of children this node has. Returns 0 if terminal.
    pub fn len_children(&self) -> (n: usize)
        ensures
            n == self.children@.len(),
    {
        self.children.len()
    }
}

impl<T: Clone> TreeNode<T> {
    /// Whether `copy` is a copy of this tree: the same shape, and at each node
    /// data that `T`'s `clone` gives for the data here.
    pub open spec fn copied_as(&self, copy: &TreeNode<T>) -> bool
        decreases self,
    {
        &&& cloned(self.data, copy.data)
        &&& self.children@.len() == copy.children@.len()
        &&& forall|i: int|
            0 <= i < self.children@.len() ==> (#[trigger] self.children@[i]).copied_as(
                &copy.children@[i],
            )
    }

    /// A copy of the tree rooted here, node for node, made with `T`'s `clone`.
    pub fn duplicate(&self) -> (copy: TreeNode<T>)
        ensures
            self.copied_as(&copy),
        decreases self,
    {
        let mut children: Vec<TreeNode<T>> = Vec::new();
        let mut i: usize = 0;
        while i < self.children.len()
            invariant
                i <= self.children@.len(),
                children@.len() == i,
                forall|j: int|
                    0 <= j < i ==> (#[trigger] self.children@[j]).copied_as(&children@[j]),
            decreases self.children@.len() - i,
        {
            let child = self.children[i].duplicate();
            children.push(child);
            i += 1;
        }
        TreeNode { data: self.data.clone(), children }
    }
}

impl<T: Clone> Clone for TreeNode<T> {
    fn clone(&self) -> (copy: Self)
        ensures
            self.copied_as(&copy),
    {
        self.duplicate()
    }
}

impl<T: PartialEq + Eq> TreeNode<T> {
    /// Whether `reference` is the data of this node or of a node below it,
    /// by the equality that `T` declares.
    pub open spec fn holds(&self, reference: &T) -> bool
        decreases self,
    {
        self.data.eq_spec(reference) || exists|i: int|
            0 <= i < self.children@.len() && (#[trigger] self.children@[i]).holds(reference)
    }

    /// Searches the whole tree below and including this node for `reference`.
    pub fn contains_recursive(&self, reference: &T) -> (found: bool)
        ensures
            T::obeys_eq_spec() ==> found == self.holds(reference),
        decreases self,
    {
        if self.data == *reference {
            return true;
        }
        let mut i: usize = 0;
        while i < self.children.len()
            invariant
                i <= self.children@.len(),
                T::obeys_eq_spec() ==> !self.data.eq_spec(reference),
                T::obeys_eq_spec() ==> forall|j: int|
                    0 <= j < i ==> !(#[trigger] self.children@[j]).holds(reference),
            decreases self.children@.len() - i,
        {
            if self.children[i].contains_recursive(reference) {
                return true;
            }
            i += 1;
        }
        false
    }
}

} // verus!
