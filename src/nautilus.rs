use vstd::prelude::*;

verus! {

/// The index of a node in a derivation tree.
#[derive(Clone, Copy, Debug, PartialEq, Eq, Hash, Structural)]
pub struct NodeId(pub usize);

/// The index of a grammar rule.
#[derive(Clone, Copy, Debug, PartialEq, Eq, Hash, Structural)]
pub struct RuleId(pub usize);

/// The rule applied at a node, or a rule whose expansion was replaced by fixed bytes.
#[derive(Debug)]
pub enum RuleIdOrCustom {
    Rule(RuleId),
    Custom(RuleId, Vec<u8>),
}

/// A derivation tree, one entry per node in each vector: the rule applied there,
/// the size of the subtree rooted there, and the node's parent.
pub struct Tree {
    pub rules: Vec<RuleIdOrCustom>,
    pub sizes: Vec<usize>,
    pub paren: Vec<NodeId>,
}

impl Tree {
    /// The number of nodes.
    pub fn size(&self) -> (r: usize)
        ensures
            r == self.rules@.len(),
    {
        self.rules.len()
    }
}

/// A fuzzing input given as a derivation tree of a grammar.
pub struct NautilusInput {
    /// The input as a tree.
    pub tree: Tree,
}

impl NautilusInput {
    /// An input holding `tree`.
    pub fn new(tree: Tree) -> (r: NautilusInput)
        ensures
            r.tree == tree,
    {
        NautilusInput { tree }
    }

    /// An input whose tree has no node.
    pub fn empty() -> (r: NautilusInput)
        ensures
            r.tree.rules@.len() == 0,
            r.tree.sizes@.len() == 0,
            r.tree.paren@.len() == 0,
    {
        NautilusInput { tree: Tree { rules: Vec::new(), sizes: Vec::new(), paren: Vec::new() } }
    }

    /// The length of the input: the number of nodes of its tree.
    pub fn len(&self) -> (r: usize)
        ensures
            r == self.tree.rules@.len(),
    {
        self.tree.size()
    }

    /// The tree of this input.
    pub fn tree(&self) -> (r: &Tree)
        ensures
            *r == self.tree,
    {
        &self.tree
    }

    /// The tree of this input, to be changed in place.
    pub fn tree_mut(&mut self) -> (r: &mut Tree)
        ensures
            *r == old(self).tree,
            final(self).tree == *final(r),
    {
        &mut self.tree
    }
}

} // verus!
