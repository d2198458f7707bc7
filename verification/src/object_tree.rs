use vstd::prelude::*;
use crate::gpu_structs::SyntaxNode;

verus! {

/// A node of a scene tree, boxed as its parent holds it.
pub type ObjectNode<L> = Box<ObjectNodeRaw<L>>;

/// A node of a game object's constructive solid geometry tree. `L` is the
/// shape data that a leaf hands on to the leaf buffer unchanged.
pub struct ObjectNodeRaw<L> {
    pub typ: ObjectNodeType<L>,
}

/// What a node of the tree is: a leaf shape, or one of the three ways of
/// combining two subtrees.
pub enum ObjectNodeType<L> {
    SDF(L),
    Union(ObjectNode<L>, ObjectNode<L>),
    Intersection(ObjectNode<L>, ObjectNode<L>),
    Subtraction(ObjectNode<L>, ObjectNode<L>),
}

impl<L> ObjectNodeRaw<L> {
    /// The node is a leaf shape.
    pub open spec fn is_leaf(self) -> bool {
        self.typ is SDF
    }

    /// The number of combining (non-leaf) nodes in the tree.
    pub open spec fn inner_count(self) -> nat
        decreases self,
    {
        match self.typ {
            ObjectNodeType::SDF(_) => 0,
            ObjectNodeType::Union(l, r) => 1 + l.inner_count() + r.inner_count(),
            ObjectNodeType::Intersection(l, r) => 1 + l.inner_count() + r.inner_count(),
            ObjectNodeType::Subtraction(l, r) => 1 + l.inner_count() + r.inner_count(),
        }
    }

    /// The number of nodes in the tree, leaves included.
    pub open spec fn size(self) -> nat
        decreases self,
    {
        match self.typ {
            ObjectNodeType::SDF(_) => 1,
            ObjectNodeType::Union(l, r) => 1 + l.size() + r.size(),
            ObjectNodeType::Intersection(l, r) => 1 + l.size() + r.size(),
            ObjectNodeType::Subtraction(l, r) => 1 + l.size() + r.size(),
        }
    }

    /// The leaf shapes of the tree, from left to right.
    pub open spec fn leaves(self) -> Seq<L>
        decreases self,
    {
        match self.typ {
            ObjectNodeType::SDF(s) => seq![s],
            ObjectNodeType::Union(l, r) => l.leaves() + r.leaves(),
            ObjectNodeType::Intersection(l, r) => l.leaves() + r.leaves(),
            ObjectNodeType::Subtraction(l, r) => l.leaves() + r.leaves(),
        }
    }

    /// Every combining node of the tree has a leaf as its left operand: the
    /// flat format can only point a node's left side at a leaf.
    pub open spec fn has_leaf_left_operands(self) -> bool
        decreases self,
    {
        match self.typ {
            ObjectNodeType::SDF(_) => true,
            ObjectNodeType::Union(l, r) => l.is_leaf() && r.has_leaf_left_operands(),
            ObjectNodeType::Intersection(l, r) => l.is_leaf() && r.has_leaf_left_operands(),
            ObjectNodeType::Subtraction(l, r) => l.is_leaf() && r.has_leaf_left_operands(),
        }
    }

    /// The flat syntax node of a combining node whose operands are `l` and
    /// `r`, when the node itself lands at index `base_node` and the leaves
    /// of its subtree start at index `base_leaf`.
    pub open spec fn combining_node(
        parent: i32,
        min: u32,
        right_neg: i32,
        l: ObjectNodeRaw<L>,
        r: ObjectNodeRaw<L>,
        base_node: int,
        base_leaf: int,
    ) -> SyntaxNode {
        SyntaxNode {
            parent,
            left: base_leaf as i32,
            left_neg: 0,
            right: if r.is_leaf() {
                (base_leaf + l.leaves().len()) as i32
            } else {
                (base_node + 1 + l.inner_count()) as i32
            },
            right_neg,
            right_gameobj: if r.is_leaf() { 1 } else { 0 },
            min,
            _pad: [0u32],
        }
    }

    /// The syntax nodes of the tree in the order the flat buffer holds them
    /// (a node before its subtrees, the left subtree before the right), when
    /// the tree's root has parent `parent`, its first node lands at index
    /// `base_node` and its first leaf at index `base_leaf`.
    pub open spec fn flat_nodes(self, parent: i32, base_node: int, base_leaf: int) -> Seq<SyntaxNode>
        decreases self,
    {
        match self.typ {
            ObjectNodeType::SDF(_) => seq![],
            ObjectNodeType::Union(l, r) => seq![
                Self::combining_node(parent, 0, 0, *l, *r, base_node, base_leaf),
            ] + l.flat_nodes(base_node as i32, base_node + 1, base_leaf) + r.flat_nodes(
                base_node as i32,
                base_node + 1 + l.inner_count(),
                base_leaf + l.leaves().len(),
            ),
            ObjectNodeType::Intersection(l, r) => seq![
                Self::combining_node(parent, 1, 0, *l, *r, base_node, base_leaf),
            ] + l.flat_nodes(base_node as i32, base_node + 1, base_leaf) + r.flat_nodes(
                base_node as i32,
                base_node + 1 + l.inner_count(),
                base_leaf + l.leaves().len(),
            ),
            ObjectNodeType::Subtraction(l, r) => seq![
                Self::combining_node(parent, 0, 1, *l, *r, base_node, base_leaf),
            ] + l.flat_nodes(base_node as i32, base_node + 1, base_leaf) + r.flat_nodes(
                base_node as i32,
                base_node + 1 + l.inner_count(),
                base_leaf + l.leaves().len(),
            ),
        }
    }
}

impl<L> ObjectNodeRaw<L> {
    /// Tells whether every combining node of the tree has a leaf as its left
    /// operand, which flattening needs.
    pub fn left_operands_are_leaves(&self) -> (ok: bool)
        ensures
            ok == self.has_leaf_left_operands(),
        decreases self,
    {
        match &self.typ {
            ObjectNodeType::SDF(_) => true,
            ObjectNodeType::Union(l, r) => l.typ.is_sdf() && r.left_operands_are_leaves(),
            ObjectNodeType::Intersection(l, r) => l.typ.is_sdf() && r.left_operands_are_leaves(),
            ObjectNodeType::Subtraction(l, r) => l.typ.is_sdf() && r.left_operands_are_leaves(),
        }
    }
}

impl<L> ObjectNodeType<L> {
    /// Tells whether the node is a leaf shape.
    pub fn is_sdf(&self) -> (leaf: bool)
        ensures
            leaf == (*self is SDF),
    {
        match self {
            ObjectNodeType::SDF(_) => true,
            _ => false,
        }
    }
}

/// The flat nodes of a tree are as many as its combining nodes.
pub proof fn lemma_flat_nodes_len<L>(t: ObjectNodeRaw<L>, parent: i32, base_node: int, base_leaf: int)
    ensures
        t.flat_nodes(parent, base_node, base_leaf).len() == t.inner_count(),
    decreases t,
{
    match t.typ {
        ObjectNodeType::SDF(_) => {},
        ObjectNodeType::Union(l, r) => {
            lemma_flat_nodes_len(*l, base_node as i32, base_node + 1, base_leaf);
            lemma_flat_nodes_len(*r, base_node as i32, base_node + 1 + l.inner_count(), base_leaf + l.leaves().len());
        },
        ObjectNodeType::Intersection(l, r) => {
            lemma_flat_nodes_len(*l, base_node as i32, base_node + 1, base_leaf);
            lemma_flat_nodes_len(*r, base_node as i32, base_node + 1 + l.inner_count(), base_leaf + l.leaves().len());
        },
        ObjectNodeType::Subtraction(l, r) => {
            lemma_flat_nodes_len(*l, base_node as i32, base_node + 1, base_leaf);
            lemma_flat_nodes_len(*r, base_node as i32, base_node + 1 + l.inner_count(), base_leaf + l.leaves().len());
        },
    }
}

/// `node` with its operand fields filled in.
pub open spec fn with_operands(node: SyntaxNode, left: i32, right: i32, right_gameobj: u32) -> SyntaxNode {
    SyntaxNode { left, right, right_gameobj, ..node }
}

/// Writes the tree under `node` to the end of `nodes` and `leafs`, with
/// `parent` as the parent index of its root; tells whether `node` is a leaf.
pub fn write_node<L: Copy>(
    node: &ObjectNodeRaw<L>,
    nodes: &mut Vec<SyntaxNode>,
    leafs: &mut Vec<L>,
    parent: i32,
) -> (is_leaf: bool)
    requires
        node.has_leaf_left_operands(),
    ensures
        is_leaf == node.is_leaf(),
        final(nodes)@ == old(nodes)@ + node.flat_nodes(parent, old(nodes)@.len() as int, old(leafs)@.len() as int),
        final(leafs)@ == old(leafs)@ + node.leaves(),
    decreases node.size(),
{
    let index = nodes.len();
    match &node.typ {
        ObjectNodeType::SDF(sdf) => {
            leafs.push(*sdf);
            true
        },
        ObjectNodeType::Union(left, right) => {
            nodes.push(SyntaxNode { left_neg: 0, right_neg: 0, min: 0, parent, ..SyntaxNode::default() });
            write_not_leaf(index, nodes, leafs, left, right);
            false
        },
        ObjectNodeType::Intersection(left, right) => {
            nodes.push(SyntaxNode { left_neg: 0, right_neg: 0, min: 1, parent, ..SyntaxNode::default() });
            write_not_leaf(index, nodes, leafs, left, right);
            false
        },
        ObjectNodeType::Subtraction(left, right) => {
            nodes.push(SyntaxNode { left_neg: 0, right_neg: 1, min: 0, parent, ..SyntaxNode::default() });
            write_not_leaf(index, nodes, leafs, left, right);
            false
        },
    }
}

/// Writes the two operands of the combining node at `index` after the
/// nodes and leaves already written, and points that node at them.
pub fn write_not_leaf<L: Copy>(
    index: usize,
    nodes: &mut Vec<SyntaxNode>,
    leafs: &mut Vec<L>,
    left: &ObjectNode<L>,
    right: &ObjectNode<L>,
)
    requires
        index < old(nodes)@.len(),
        left.is_leaf(),
        right.has_leaf_left_operands(),
    ensures
        final(nodes)@ == old(nodes)@.update(
            index as int,
            with_operands(
                old(nodes)@[index as int],
                old(leafs)@.len() as i32,
                if right.is_leaf() {
                    (old(leafs)@.len() + left.leaves().len()) as i32
                } else {
                    (old(nodes)@.len() + left.inner_count()) as i32
                },
                if right.is_leaf() { 1 } else { 0 },
            ),
        ) + left.flat_nodes(index as i32, old(nodes)@.len() as int, old(leafs)@.len() as int) + right.flat_nodes(
            index as i32,
            (old(nodes)@.len() + left.inner_count()) as int,
            (old(leafs)@.len() + left.leaves().len()) as int,
        ),
        final(leafs)@ == old(leafs)@ + left.leaves() + right.leaves(),
    decreases left.size() + right.size(),
{
    let leafs_len = leafs.len() as i32;
    let is_leaf_left = write_node(left, nodes, leafs, index as i32);
    let mut node = nodes[index];
    node.left = leafs_len;
    let leafs_len = leafs.len() as i32;
    let nodes_len = nodes.len() as i32;
    let is_leaf_right = write_node(right, nodes, leafs, index as i32);
    if is_leaf_right {
        node.right = leafs_len;
        node.right_gameobj = 1;
    } else {
        node.right = nodes_len;
        node.right_gameobj = 0;
    }
    nodes.set(index, node);
}

/// The flattened scene: the syntax nodes of every game object's tree, their
/// leaf shapes, and how many game objects (tree roots) there are.
pub struct FlatRenderTree<L> {
    pub nodes: Vec<SyntaxNode>,
    pub leafs: Vec<L>,
    pub first_layer_length: u32,
}

/// The number of combining nodes in a sequence of trees.
pub open spec fn forest_inner_count<L>(trees: Seq<&ObjectNodeRaw<L>>) -> nat
    decreases trees.len(),
{
    if trees.len() == 0 {
        0
    } else {
        forest_inner_count(trees.drop_last()) + trees.last().inner_count()
    }
}

/// The leaf shapes of a sequence of trees, tree after tree.
pub open spec fn forest_leaves<L>(trees: Seq<&ObjectNodeRaw<L>>) -> Seq<L>
    decreases trees.len(),
{
    if trees.len() == 0 {
        seq![]
    } else {
        forest_leaves(trees.drop_last()) + trees.last().leaves()
    }
}

/// The syntax nodes of a sequence of trees, tree after tree, each tree's
/// root with parent -1.
pub open spec fn forest_flat_nodes<L>(trees: Seq<&ObjectNodeRaw<L>>) -> Seq<SyntaxNode>
    decreases trees.len(),
{
    if trees.len() == 0 {
        seq![]
    } else {
        let before = trees.drop_last();
        forest_flat_nodes(before) + trees.last().flat_nodes(
            -1i32,
            forest_inner_count(before) as int,
            forest_leaves(before).len() as int,
        )
    }
}

/// Every tree of the sequence has leaves as the left operands of its
/// combining nodes.
pub open spec fn forest_has_leaf_left_operands<L>(trees: Seq<&ObjectNodeRaw<L>>) -> bool {
    forall|i: int| 0 <= i < trees.len() ==> #[trigger] trees[i].has_leaf_left_operands()
}

/// The flat nodes of a sequence of trees are as many as its combining nodes.
pub proof fn lemma_forest_flat_nodes_len<L>(trees: Seq<&ObjectNodeRaw<L>>)
    ensures
        forest_flat_nodes(trees).len() == forest_inner_count(trees),
    decreases trees.len(),
{
    if trees.len() > 0 {
        let before = trees.drop_last();
        lemma_forest_flat_nodes_len(before);
        lemma_flat_nodes_len(*trees.last(), -1i32, forest_inner_count(before) as int, forest_leaves(before).len() as int);
    }
}

/// Flattens the trees of a scene's game objects, in order, into the buffers
/// the shader reads.
pub fn build_render_tree<L: Copy>(trees: &Vec<&ObjectNodeRaw<L>>) -> (flat: FlatRenderTree<L>)
    requires
        trees@.len() > 0,
        forest_has_leaf_left_operands(trees@),
    ensures
        flat.nodes@ == forest_flat_nodes(trees@),
        flat.leafs@ == forest_leaves(trees@),
        flat.first_layer_length == trees@.len() as u32,
{
    let mut nodes: Vec<SyntaxNode> = Vec::new();
    let mut leafs: Vec<L> = Vec::new();
    let mut i: usize = 0;
    while i < trees.len()
        invariant
            i <= trees@.len(),
            forest_has_leaf_left_operands(trees@),
            nodes@ == forest_flat_nodes(trees@.take(i as int)),
            leafs@ == forest_leaves(trees@.take(i as int)),
        decreases trees@.len() - i,
    {
        let ghost before = trees@.take(i as int);
        proof {
            lemma_forest_flat_nodes_len(before);
            assert(trees@.take(i + 1).drop_last() =~= before);
            assert(trees@[i as int].has_leaf_left_operands());
        }
        write_node(trees[i], &mut nodes, &mut leafs, -1);
        i = i + 1;
    }
    proof {
        assert(trees@.take(i as int) =~= trees@);
    }
    FlatRenderTree { nodes, leafs, first_layer_length: trees.len() as u32 }
}

} // verus!
