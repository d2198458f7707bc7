use vstd::prelude::*;
use crate::gpu_structs::SyntaxNode;
use crate::object_tree::{
    ObjectNode, ObjectNodeRaw, ObjectNodeType, forest_flat_nodes, forest_has_leaf_left_operands,
    forest_inner_count, forest_leaves, lemma_flat_nodes_len, lemma_forest_flat_nodes_len,
};

verus! {

/// A leaf node holding `shape`.
pub open spec fn leaf_node<L>(shape: L) -> ObjectNodeRaw<L> {
    ObjectNodeRaw { typ: ObjectNodeType::SDF(shape) }
}

/// Reads back the tree whose root is the syntax node at index `k`, the way
/// the shader walks the buffers: the left operand is the leaf at `left`; the
/// right operand is the leaf at `right` when `right_gameobj` is 1 and the
/// syntax node at `right` when it is 0; `min` set means an intersection,
/// `right_neg` set a subtraction, neither a union. `None` where an index is
/// out of range, or a node points back at itself or an earlier node.
pub open spec fn decode_node<L>(nodes: Seq<SyntaxNode>, leafs: Seq<L>, k: int) -> Option<ObjectNodeRaw<L>>
    decreases nodes.len() - k,
{
    if !(0 <= k < nodes.len()) {
        None
    } else {
        let n = nodes[k];
        let right: Option<ObjectNode<L>> = if n.right_gameobj == 1 {
            if 0 <= n.right < leafs.len() {
                Some(Box::new(leaf_node(leafs[n.right as int])))
            } else {
                None
            }
        } else if n.right_gameobj == 0 && k < n.right < nodes.len() {
            match decode_node(nodes, leafs, n.right as int) {
                Some(r) => Some(Box::new(r)),
                None => None,
            }
        } else {
            None
        };
        if !(0 <= n.left < leafs.len()) {
            None
        } else {
            let left = Box::new(leaf_node(leafs[n.left as int]));
            match right {
                None => None,
                Some(r) => Some(
                    ObjectNodeRaw {
                        typ: if n.min == 1 {
                            ObjectNodeType::Intersection(left, r)
                        } else if n.right_neg == 1 {
                            ObjectNodeType::Subtraction(left, r)
                        } else {
                            ObjectNodeType::Union(left, r)
                        },
                    },
                ),
            }
        }
    }
}

/// A combining tree whose flat nodes sit at `base_node` in `nodes` and whose
/// leaves sit at `base_leaf` in `leafs` is read back whole from `base_node`.
proof fn lemma_decode_tree<L>(
    t: ObjectNodeRaw<L>,
    parent: i32,
    base_node: int,
    base_leaf: int,
    nodes: Seq<SyntaxNode>,
    leafs: Seq<L>,
)
    requires
        !t.is_leaf(),
        t.has_leaf_left_operands(),
        0 <= base_node,
        0 <= base_leaf,
        base_node + t.inner_count() <= nodes.len() <= i32::MAX,
        base_leaf + t.leaves().len() <= leafs.len() <= i32::MAX,
        nodes.subrange(base_node, base_node + t.inner_count()) == t.flat_nodes(parent, base_node, base_leaf),
        leafs.subrange(base_leaf, base_leaf + t.leaves().len()) == t.leaves(),
    ensures
        decode_node(nodes, leafs, base_node) == Some(t),
    decreases t,
{
    let (l, r) = match t.typ {
        ObjectNodeType::Union(l, r) => (l, r),
        ObjectNodeType::Intersection(l, r) => (l, r),
        ObjectNodeType::Subtraction(l, r) => (l, r),
        ObjectNodeType::SDF(_) => { assert(false); arbitrary() },
    };
    assert(t.leaves() == l.leaves() + r.leaves());
    assert(l.inner_count() == 0);
    assert(l.leaves().len() == 1);
    let flat = t.flat_nodes(parent, base_node, base_leaf);
    let rflat = r.flat_nodes(base_node as i32, base_node + 1, base_leaf + 1);
    assert(l.flat_nodes(base_node as i32, base_node + 1, base_leaf) =~= Seq::<SyntaxNode>::empty());
    assert(flat =~= seq![flat[0]] + rflat);
    assert(nodes[base_node] == flat[0]);
    assert(leafs[base_leaf] == t.leaves()[0]);
    assert(*l == leaf_node(leafs[base_leaf]));
    if r.is_leaf() {
        assert(leafs[base_leaf + 1] == t.leaves()[1]);
        assert(*r == leaf_node(leafs[base_leaf + 1]));
    } else {
        lemma_flat_nodes_len(*r, base_node as i32, base_node + 1, base_leaf + 1);
        assert(nodes.subrange(base_node + 1, base_node + 1 + r.inner_count()) =~= rflat) by {
            assert forall|j: int| 0 <= j < r.inner_count() implies
                #[trigger] nodes.subrange(base_node + 1, base_node + 1 + r.inner_count())[j] == rflat[j] by {
                assert(nodes.subrange(base_node, base_node + t.inner_count())[j + 1] == flat[j + 1]);
            }
        }
        assert(leafs.subrange(base_leaf + 1, base_leaf + 1 + r.leaves().len()) =~= r.leaves()) by {
            assert forall|j: int| 0 <= j < r.leaves().len() implies
                #[trigger] leafs.subrange(base_leaf + 1, base_leaf + 1 + r.leaves().len())[j] == r.leaves()[j] by {
                assert(leafs.subrange(base_leaf, base_leaf + t.leaves().len())[j + 1] == t.leaves()[j + 1]);
                assert(t.leaves()[j + 1] == r.leaves()[j]);
            }
        }
        lemma_decode_tree(*r, base_node as i32, base_node + 1, base_leaf + 1, nodes, leafs);
    }
}

/// The flat nodes and leaves of the first `j` trees are a prefix of those of
/// all the trees.
proof fn lemma_forest_prefix<L>(trees: Seq<&ObjectNodeRaw<L>>, j: int)
    requires
        0 <= j <= trees.len(),
    ensures
        forest_flat_nodes(trees.take(j)).len() <= forest_flat_nodes(trees).len(),
        forest_flat_nodes(trees).subrange(0, forest_flat_nodes(trees.take(j)).len() as int)
            == forest_flat_nodes(trees.take(j)),
        forest_leaves(trees.take(j)).len() <= forest_leaves(trees).len(),
        forest_leaves(trees).subrange(0, forest_leaves(trees.take(j)).len() as int) == forest_leaves(
            trees.take(j),
        ),
    decreases trees.len(),
{
    if j == trees.len() {
        assert(trees.take(j) =~= trees);
    } else {
        let before = trees.drop_last();
        assert(before.take(j) =~= trees.take(j));
        lemma_forest_prefix(before, j);
        let fb = forest_flat_nodes(before);
        let fj = forest_flat_nodes(trees.take(j));
        assert(forest_flat_nodes(trees).subrange(0, fj.len() as int) =~= fb.subrange(0, fj.len() as int));
        let lb = forest_leaves(before);
        let lj = forest_leaves(trees.take(j));
        assert(forest_leaves(trees).subrange(0, lj.len() as int) =~= lb.subrange(0, lj.len() as int));
    }
}

/// The flat buffers of a scene hold every game object's tree whole. For
/// the `i`-th tree, if it is a combining tree, its root is the syntax node
/// that follows the nodes of the trees before it; that node has parent -1,
/// and reading the buffers back from it gives the tree itself. (A game
/// object whose whole tree is one leaf gets a leaf and no syntax node.)
pub proof fn lemma_flat_render_tree_holds_each_tree<L>(trees: Seq<&ObjectNodeRaw<L>>, i: int)
    requires
        forest_has_leaf_left_operands(trees),
        0 <= i < trees.len(),
        !trees[i].is_leaf(),
        forest_inner_count(trees) <= i32::MAX,
        forest_leaves(trees).len() <= i32::MAX,
    ensures
        forest_inner_count(trees.take(i)) < forest_flat_nodes(trees).len(),
        forest_flat_nodes(trees)[forest_inner_count(trees.take(i)) as int].parent == -1,
        decode_node(forest_flat_nodes(trees), forest_leaves(trees), forest_inner_count(trees.take(i)) as int)
            == Some(*trees[i]),
{
    let t = *trees[i];
    let before = trees.take(i);
    let upto = trees.take(i + 1);
    let nodes = forest_flat_nodes(trees);
    let leafs = forest_leaves(trees);
    let base_node = forest_inner_count(before) as int;
    let base_leaf = forest_leaves(before).len() as int;
    assert(upto.drop_last() =~= before);
    assert(trees[i].has_leaf_left_operands());
    lemma_forest_prefix(trees, i + 1);
    lemma_forest_flat_nodes_len(before);
    lemma_forest_flat_nodes_len(trees);
    lemma_flat_nodes_len(t, -1i32, base_node, base_leaf);
    let tflat = t.flat_nodes(-1i32, base_node, base_leaf);
    let fu = forest_flat_nodes(upto);
    assert(fu == forest_flat_nodes(before) + tflat);
    assert(nodes.subrange(base_node, base_node + t.inner_count()) =~= tflat) by {
        assert forall|j: int| 0 <= j < t.inner_count() implies
            #[trigger] nodes.subrange(base_node, base_node + t.inner_count())[j] == tflat[j] by {
            assert(nodes.subrange(0, fu.len() as int)[base_node + j] == fu[base_node + j]);
        }
    }
    let lu = forest_leaves(upto);
    assert(lu == forest_leaves(before) + t.leaves());
    assert(leafs.subrange(base_leaf, base_leaf + t.leaves().len()) =~= t.leaves()) by {
        assert forall|j: int| 0 <= j < t.leaves().len() implies
            #[trigger] leafs.subrange(base_leaf, base_leaf + t.leaves().len())[j] == t.leaves()[j] by {
            assert(leafs.subrange(0, lu.len() as int)[base_leaf + j] == lu[base_leaf + j]);
        }
    }
    lemma_decode_tree(t, -1i32, base_node, base_leaf, nodes, leafs);
    assert(nodes.subrange(base_node, base_node + t.inner_count())[0] == nodes[base_node]);
    assert(tflat[0].parent == -1) by {
        match t.typ {
            ObjectNodeType::SDF(_) => {},
            _ => {},
        }
    }
}

/// The links of the syntax node at index `j` are sound: its left operand is
/// one of the `leaf_count` leaves; its right operand is a leaf, or a later
/// node whose parent is `j`; and its parent is -1 (a game object's root) or
/// an earlier node whose right operand is `j`.
pub open spec fn node_links_ok(nodes: Seq<SyntaxNode>, leaf_count: int, j: int) -> bool {
    let n = nodes[j];
    &&& 0 <= n.left < leaf_count
    &&& n.left_neg == 0
    &&& {
        ||| n.right_gameobj == 1 && 0 <= n.right < leaf_count
        ||| n.right_gameobj == 0 && j < n.right < nodes.len() && nodes[n.right as int].parent == j
    }
    &&& {
        ||| n.parent == -1
        ||| 0 <= n.parent < j && nodes[n.parent as int].right_gameobj == 0 && nodes[n.parent as int].right == j
    }
}

/// The links of the node at index `j` of a tree's segment of the buffer,
/// which starts at `base` and whose root has parent `parent`, stay inside the
/// segment and inside the tree's leaves `lo..hi`.
spec fn segment_links_ok(nodes: Seq<SyntaxNode>, j: int, base: int, end: int, parent: i32, lo: int, hi: int) -> bool {
    let n = nodes[j];
    &&& lo <= n.left < hi
    &&& n.left_neg == 0
    &&& {
        ||| n.right_gameobj == 1 && lo <= n.right < hi
        ||| n.right_gameobj == 0 && j < n.right < end && nodes[n.right as int].parent == j
    }
    &&& if j == base {
        n.parent == parent
    } else {
        base <= n.parent < j && nodes[n.parent as int].right_gameobj == 0 && nodes[n.parent as int].right == j
    }
}

proof fn lemma_tree_links<L>(
    t: ObjectNodeRaw<L>,
    parent: i32,
    base_node: int,
    base_leaf: int,
    nodes: Seq<SyntaxNode>,
    leaf_count: int,
)
    requires
        t.has_leaf_left_operands(),
        0 <= base_node,
        0 <= base_leaf,
        base_node + t.inner_count() <= nodes.len() <= i32::MAX,
        base_leaf + t.leaves().len() <= leaf_count <= i32::MAX,
        nodes.subrange(base_node, base_node + t.inner_count()) == t.flat_nodes(parent, base_node, base_leaf),
    ensures
        forall|j: int|
            base_node <= j < base_node + t.inner_count() ==> #[trigger] segment_links_ok(
                nodes,
                j,
                base_node,
                base_node + t.inner_count(),
                parent,
                base_leaf,
                base_leaf + t.leaves().len(),
            ),
    decreases t,
{
    if !t.is_leaf() {
        let (l, r) = match t.typ {
            ObjectNodeType::Union(l, r) => (l, r),
            ObjectNodeType::Intersection(l, r) => (l, r),
            ObjectNodeType::Subtraction(l, r) => (l, r),
            ObjectNodeType::SDF(_) => { assert(false); arbitrary() },
        };
        assert(t.leaves() == l.leaves() + r.leaves());
        assert(t.inner_count() == 1 + l.inner_count() + r.inner_count());
        assert(l.inner_count() == 0);
        assert(l.leaves().len() == 1);
        let end = base_node + t.inner_count();
        let flat = t.flat_nodes(parent, base_node, base_leaf);
        let rflat = r.flat_nodes(base_node as i32, base_node + 1, base_leaf + 1);
        assert(l.flat_nodes(base_node as i32, base_node + 1, base_leaf) =~= Seq::<SyntaxNode>::empty());
        assert(flat =~= seq![flat[0]] + rflat);
        assert(nodes[base_node] == nodes.subrange(base_node, end)[0]);
        lemma_flat_nodes_len(*r, base_node as i32, base_node + 1, base_leaf + 1);
        assert(nodes.subrange(base_node + 1, end) =~= rflat) by {
            assert forall|j: int| 0 <= j < r.inner_count() implies
                #[trigger] nodes.subrange(base_node + 1, end)[j] == rflat[j] by {
                assert(nodes.subrange(base_node, end)[j + 1] == flat[j + 1]);
            }
        }
        if !r.is_leaf() {
            assert(nodes[base_node + 1] == nodes.subrange(base_node + 1, end)[0]);
            assert(rflat[0].parent == base_node as i32) by {
                match r.typ {
                    ObjectNodeType::SDF(_) => {},
                    _ => {},
                }
            }
        }
        lemma_tree_links(*r, base_node as i32, base_node + 1, base_leaf + 1, nodes, leaf_count);
        assert forall|j: int| base_node <= j < end implies #[trigger] segment_links_ok(
            nodes,
            j,
            base_node,
            end,
            parent,
            base_leaf,
            base_leaf + t.leaves().len(),
        ) by {
            if j > base_node {
                assert(segment_links_ok(nodes, j, base_node + 1, end, base_node as i32, base_leaf + 1, base_leaf + t.leaves().len()));
                assert(!r.is_leaf());
                assert(nodes[base_node].right_gameobj == 0);
                assert(nodes[base_node].right == base_node + 1);
            }
        }
    }
}

/// Index `j` is where the root of one of the combining trees lands: the
/// first index after the nodes of the trees before it.
pub open spec fn is_root_index<L>(trees: Seq<&ObjectNodeRaw<L>>, j: int) -> bool {
    exists|i: int|
        0 <= i < trees.len() && !trees[i].is_leaf() && j == #[trigger] forest_inner_count(trees.take(i))
}

/// The links of every syntax node of a flattened scene are sound (see
/// `node_links_ok`): operands and parents point into the buffers, a node's
/// right operand node points back at it as its parent, and a node's parent
/// points at it as its right operand. The only nodes with parent -1 are the
/// roots of the game objects' trees.
pub proof fn lemma_flat_render_tree_links_sound<L>(trees: Seq<&ObjectNodeRaw<L>>)
    requires
        forest_has_leaf_left_operands(trees),
        forest_inner_count(trees) <= i32::MAX,
        forest_leaves(trees).len() <= i32::MAX,
    ensures
        forall|j: int|
            0 <= j < forest_flat_nodes(trees).len() ==> #[trigger] node_links_ok(
                forest_flat_nodes(trees),
                forest_leaves(trees).len() as int,
                j,
            ),
        forall|j: int|
            0 <= j < forest_flat_nodes(trees).len() && (#[trigger] forest_flat_nodes(trees)[j]).parent == -1
                ==> is_root_index(trees, j),
    decreases trees.len(),
{
    lemma_forest_flat_nodes_len(trees);
    if trees.len() > 0 {
        let before = trees.drop_last();
        let t = *trees.last();
        assert(before.len() == trees.len() - 1);
        assert(forest_has_leaf_left_operands(before)) by {
            assert forall|i: int| 0 <= i < before.len() implies #[trigger] before[i].has_leaf_left_operands() by {
                assert(before[i] == trees[i]);
            }
        }
        assert(trees[trees.len() - 1].has_leaf_left_operands());
        lemma_forest_flat_nodes_len(before);
        lemma_flat_render_tree_links_sound(before);
        let fb = forest_flat_nodes(before);
        let nodes = forest_flat_nodes(trees);
        let lb = forest_leaves(before).len() as int;
        let lc = forest_leaves(trees).len() as int;
        let base = fb.len() as int;
        lemma_flat_nodes_len(t, -1i32, base, lb);
        let tflat = t.flat_nodes(-1i32, base, lb);
        assert(nodes == fb + tflat);
        assert(nodes.subrange(base, base + t.inner_count()) =~= tflat);
        lemma_tree_links(t, -1i32, base, lb, nodes, lc);
        assert forall|j: int| 0 <= j < nodes.len() implies #[trigger] node_links_ok(nodes, lc, j) by {
            if j < base {
                assert(node_links_ok(fb, lb, j));
                let n = fb[j];
                assert(nodes[j] == n);
                if n.right_gameobj == 0 {
                    assert(nodes[n.right as int] == fb[n.right as int]);
                }
                if n.parent != -1 {
                    assert(nodes[n.parent as int] == fb[n.parent as int]);
                }
            } else {
                assert(segment_links_ok(nodes, j, base, base + t.inner_count(), -1i32, lb, lc));
            }
        }
        assert forall|j: int| 0 <= j < nodes.len() && (#[trigger] nodes[j]).parent == -1 implies is_root_index(trees, j) by {
            if j < base {
                assert(fb[j] == nodes[j]);
                assert(is_root_index(before, j));
                let i = choose|i: int|
                    0 <= i < before.len() && !before[i].is_leaf() && j == #[trigger] forest_inner_count(before.take(i));
                assert(before.take(i) =~= trees.take(i));
                assert(before[i] == trees[i]);
                assert(forest_inner_count(trees.take(i)) == j);
            } else {
                assert(segment_links_ok(nodes, j, base, base + t.inner_count(), -1i32, lb, lc));
                assert(j == base);
                let i = trees.len() - 1;
                assert(trees.take(i) =~= before);
                assert(forest_inner_count(trees.take(i)) == j);
                assert(!trees[i].is_leaf());
            }
        }
    }
}

/// A parent index moved `dn` nodes along; -1 (a game object's root) stays.
pub open spec fn shift_parent(parent: i32, dn: int) -> i32 {
    if parent == -1 {
        -1i32
    } else {
        (parent + dn) as i32
    }
}

/// A syntax node moved along the buffers: its node indices by `dn` and its
/// leaf indices by `dl`.
pub open spec fn shift_node(n: SyntaxNode, dn: int, dl: int) -> SyntaxNode {
    SyntaxNode {
        parent: shift_parent(n.parent, dn),
        left: (n.left + dl) as i32,
        right: if n.right_gameobj == 1 {
            (n.right + dl) as i32
        } else {
            (n.right + dn) as i32
        },
        ..n
    }
}

/// Syntax nodes moved along the buffers.
pub open spec fn shift_nodes(nodes: Seq<SyntaxNode>, dn: int, dl: int) -> Seq<SyntaxNode> {
    nodes.map_values(|n: SyntaxNode| shift_node(n, dn, dl))
}

proof fn lemma_shift_concat(a: Seq<SyntaxNode>, b: Seq<SyntaxNode>, dn: int, dl: int)
    ensures
        shift_nodes(a + b, dn, dl) == shift_nodes(a, dn, dl) + shift_nodes(b, dn, dl),
{
    assert(shift_nodes(a + b, dn, dl) =~= shift_nodes(a, dn, dl) + shift_nodes(b, dn, dl));
}

/// A tree's flat nodes placed further along the buffers are its flat nodes
/// moved along by the same amounts.
proof fn lemma_flat_nodes_shift<L>(t: ObjectNodeRaw<L>, parent: i32, base_node: int, base_leaf: int, dn: int, dl: int)
    requires
        0 <= base_node,
        0 <= base_leaf,
        0 <= dn,
        0 <= dl,
        parent == -1 || 0 <= parent < base_node,
        base_node + dn + t.inner_count() <= i32::MAX,
        base_leaf + dl + t.leaves().len() <= i32::MAX,
    ensures
        t.flat_nodes(shift_parent(parent, dn), base_node + dn, base_leaf + dl) == shift_nodes(
            t.flat_nodes(parent, base_node, base_leaf),
            dn,
            dl,
        ),
    decreases t,
{
    if !t.is_leaf() {
        let (l, r) = match t.typ {
            ObjectNodeType::Union(l, r) => (l, r),
            ObjectNodeType::Intersection(l, r) => (l, r),
            ObjectNodeType::Subtraction(l, r) => (l, r),
            ObjectNodeType::SDF(_) => { assert(false); arbitrary() },
        };
        assert(t.leaves() == l.leaves() + r.leaves());
        assert(t.inner_count() == 1 + l.inner_count() + r.inner_count());
        let flat = t.flat_nodes(parent, base_node, base_leaf);
        let lflat = l.flat_nodes(base_node as i32, base_node + 1, base_leaf);
        let rflat = r.flat_nodes(base_node as i32, base_node + 1 + l.inner_count(), base_leaf + l.leaves().len());
        let sflat = t.flat_nodes(shift_parent(parent, dn), base_node + dn, base_leaf + dl);
        let slflat = l.flat_nodes((base_node + dn) as i32, base_node + dn + 1, base_leaf + dl);
        let srflat = r.flat_nodes(
            (base_node + dn) as i32,
            base_node + dn + 1 + l.inner_count(),
            base_leaf + dl + l.leaves().len(),
        );
        assert(flat == seq![flat[0]] + lflat + rflat);
        assert(sflat == seq![sflat[0]] + slflat + srflat);
        assert(shift_parent(base_node as i32, dn) == (base_node + dn) as i32);
        lemma_flat_nodes_shift(*l, base_node as i32, base_node + 1, base_leaf, dn, dl);
        lemma_flat_nodes_shift(*r, base_node as i32, base_node + 1 + l.inner_count(), base_leaf + l.leaves().len(), dn, dl);
        lemma_shift_concat(seq![flat[0]] + lflat, rflat, dn, dl);
        lemma_shift_concat(seq![flat[0]], lflat, dn, dl);
        assert(shift_nodes(seq![flat[0]], dn, dl) =~= seq![shift_node(flat[0], dn, dl)]);
        assert(sflat[0] == shift_node(flat[0], dn, dl));
    } else {
        assert(shift_nodes(Seq::<SyntaxNode>::empty(), dn, dl) =~= Seq::<SyntaxNode>::empty());
    }
}

/// Adding a game object to a scene adds its tree to the flat buffers as
/// that tree flattened on its own, moved along by the old buffers' lengths:
/// the old nodes and leaves stay as they were, the new tree's syntax nodes
/// follow with every index moved by the old numbers of nodes and leaves
/// (its root's parent stays -1), and its leaves follow the old leaves.
pub proof fn lemma_added_tree_flattens_alone<L>(trees: Seq<&ObjectNodeRaw<L>>, t: &ObjectNodeRaw<L>)
    requires
        forest_inner_count(trees) + t.inner_count() <= i32::MAX,
        forest_leaves(trees).len() + t.leaves().len() <= i32::MAX,
    ensures
        forest_flat_nodes(trees.push(t)) == forest_flat_nodes(trees) + shift_nodes(
            forest_flat_nodes(seq![t]),
            forest_flat_nodes(trees).len() as int,
            forest_leaves(trees).len() as int,
        ),
        forest_leaves(trees.push(t)) == forest_leaves(trees) + forest_leaves(seq![t]),
{
    let after = trees.push(t);
    let alone = seq![t];
    assert(after.drop_last() =~= trees);
    assert(alone.drop_last() =~= Seq::<&ObjectNodeRaw<L>>::empty());
    let none = alone.drop_last();
    assert(none.len() == 0);
    assert(forest_inner_count(none) == 0);
    assert(forest_leaves(none) == Seq::<L>::empty());
    assert(forest_flat_nodes(none) == Seq::<SyntaxNode>::empty());
    assert(alone.last() == t);
    assert(forest_flat_nodes(alone) =~= t.flat_nodes(-1i32, 0, 0));
    assert(forest_leaves(alone) =~= t.leaves());
    lemma_forest_flat_nodes_len(trees);
    let dn = forest_inner_count(trees) as int;
    let dl = forest_leaves(trees).len() as int;
    lemma_flat_nodes_shift(*t, -1i32, 0, 0, dn, dl);
    assert(shift_parent(-1i32, dn) == -1i32);
}

} // verus!
