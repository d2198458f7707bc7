use engine::gpu_buffers::{leaf_storage, leaf_storage_bytes, node_storage, syntax_tree_bytes, syntax_tree_words};
use engine::gpu_structs::{LeafObjectStorage, SyntaxNode, SyntaxNodeStorage};
use engine::object_tree::FlatRenderTree;

fn sample() -> FlatRenderTree<u8> {
    FlatRenderTree {
        nodes: vec![
            SyntaxNode { parent: -1, left: 0, left_neg: 0, right: 1, right_neg: 0, right_gameobj: 0, min: 1, _pad: [0] },
            SyntaxNode { parent: 0, left: 1, left_neg: 0, right: 2, right_neg: 1, right_gameobj: 1, min: 0, _pad: [0] },
        ],
        leafs: vec![1, 2, 3],
        first_layer_length: 1,
    }
}

#[test]
fn syntax_node_default_is_all_zero() {
    let n = SyntaxNode::default();
    assert_eq!(n, SyntaxNode { parent: 0, left: 0, left_neg: 0, right: 0, right_neg: 0, right_gameobj: 0, min: 0, _pad: [0] });
}

#[test]
fn headers_count_nodes_and_leaves() {
    let t = sample();
    assert_eq!(node_storage(&t), SyntaxNodeStorage { length: 2, num_root: 1, _pad: [0, 0] });
    assert_eq!(leaf_storage(&t), LeafObjectStorage { length: 3, _pad: [0, 0, 0] });
}

#[test]
fn syntax_tree_words_are_header_then_fields() {
    let t = sample();
    assert_eq!(
        syntax_tree_words(&t),
        vec![2, 1, 0, 0, 0xffff_ffff, 0, 0, 1, 0, 0, 1, 0, 0, 1, 0, 2, 1, 1, 0, 0]
    );
}

#[test]
fn syntax_tree_bytes_are_the_words_in_native_order() {
    let t = sample();
    let bytes = syntax_tree_bytes(&t);
    let words = syntax_tree_words(&t);
    assert_eq!(bytes.len(), 4 * words.len());
    let expected: Vec<u8> = words.iter().flat_map(|w| w.to_ne_bytes()).collect();
    assert_eq!(bytes, expected);
    assert_eq!(&bytes[..4], &2u32.to_ne_bytes());
    assert_eq!(&bytes[16..20], &[0xff, 0xff, 0xff, 0xff]);
}

#[test]
fn leaf_header_bytes() {
    let t = sample();
    let bytes = leaf_storage_bytes(&t);
    assert_eq!(bytes.len(), 16);
    let expected: Vec<u8> = [3u32, 0, 0, 0].iter().flat_map(|w| w.to_ne_bytes()).collect();
    assert_eq!(bytes, expected);
}
