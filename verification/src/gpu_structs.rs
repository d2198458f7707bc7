use vstd::prelude::*;

verus! {

/// Header of the leaf storage buffer: how many leaf objects follow it.
#[derive(Copy, Clone, Debug, PartialEq, Eq)]
pub struct LeafObjectStorage {
    pub length: u32,
    pub _pad: [u32; 3],
}

/// Header of the game object storage buffer: how many game objects follow it.
#[derive(Copy, Clone, Debug, PartialEq, Eq)]
pub struct GameObjectStorage {
    pub length: u32,
    pub _pad: [u32; 3],
}

/// Header of the syntax tree storage buffer: how many syntax nodes follow it
/// and how many of them are the roots of game objects.
#[derive(Copy, Clone, Debug, PartialEq, Eq)]
pub struct SyntaxNodeStorage {
    pub length: i32,
    pub num_root: i32,
    pub _pad: [u32; 2],
}

/// One inner node of the flattened scene tree, as the shader reads it.
///
/// `left` is the index of a leaf object; `right` is the index of a leaf
/// object when `right_gameobj` is 1 and of another syntax node when it is 0.
/// `parent` is the index of the parent node, or -1 for the root of a game
/// object. `right_neg` is 1 for a subtraction, `min` is 1 for an
/// intersection (and 0 for a union or subtraction).
#[derive(Copy, Clone, Debug, PartialEq, Eq)]
pub struct SyntaxNode {
    pub parent: i32,
    pub left: i32,
    pub left_neg: u32,
    pub right: i32,
    pub right_neg: i32,
    pub right_gameobj: u32,
    pub min: u32,
    pub _pad: [u32; 1],
}

/// The syntax node with every field zero.
pub open spec fn zero_syntax_node() -> SyntaxNode {
    SyntaxNode {
        parent: 0,
        left: 0,
        left_neg: 0,
        right: 0,
        right_neg: 0,
        right_gameobj: 0,
        min: 0,
        _pad: [0u32],
    }
}

impl Default for SyntaxNode {
    fn default() -> (node: Self)
        ensures
            node == zero_syntax_node(),
            node.parent == 0 && node.left == 0 && node.left_neg == 0 && node.right == 0,
            node.right_neg == 0 && node.right_gameobj == 0 && node.min == 0 && node._pad[0] == 0,
    {
        SyntaxNode {
            parent: 0,
            left: 0,
            left_neg: 0,
            right: 0,
            right_neg: 0,
            right_gameobj: 0,
            min: 0,
            _pad: [0],
        }
    }
}

} // verus!
